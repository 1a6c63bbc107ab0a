//! Bringing the synthetic node graph in line with the guest's own scene
//! graph. The walk goes breadth first from a root; for each node the host
//! asks the guest for its children (an Objective-C call) and hands the list
//! back, with each child's z order. Children the graph still holds but the
//! guest no longer lists, and that were seen in the guest's graph before,
//! are taken away; every listed child is placed under the node.
use vstd::prelude::*;
use std::collections::VecDeque;
use super::MemoryArm32Backend;
use super::attach::{
    items_before_insert, lemma_attached_child_listed, remove_first, target_array, cursor_kept_nonzero,
    AttachOutcome,
};
use super::multiplex::{at_most_once, lemma_no_copy_kept, lemma_remove_only_copy};
use super::nodes::{arr_items, children_of, first_index, graphics_frame, lemma_first_index, parent_of, sprite_of, BackendGraphicsState};

verus! {

/// How many nodes a walk reconciles at most.
pub const GUEST_GRAPH_SCAN_LIMIT: usize = 128;
/// Once this many nodes were seen, children are no longer queued.
pub const GUEST_GRAPH_SEEN_LIMIT: usize = 256;

/// How one listed child was linked under its node.
#[derive(Debug, Clone, Copy, PartialEq, Eq)]
pub enum GuestChildLink {
    /// A null entry, skipped.
    Skipped,
    /// Already a child of the node: moved to its z-order place at `index`.
    Moved { index: usize },
    /// Attached under the node at `index`.
    Attached { index: usize },
    /// Not attached: it is the node or one of its ancestors.
    Blocked,
}

/// `x` is the child of some entry of `listed`.
pub open spec fn listed_has(listed: Seq<(u32, i32)>, x: u32) -> bool {
    exists|i: int| 0 <= i < listed.len() && (#[trigger] listed[i]).0 == x
}

/// Number of links that went through an attach (made or blocked).
pub open spec fn attach_calls(out: Seq<GuestChildLink>) -> nat
    decreases out.len(),
{
    if out.len() == 0 {
        0
    } else {
        attach_calls(out.drop_last()) + match out.last() {
            GuestChildLink::Attached { .. } => 1nat,
            GuestChildLink::Blocked => 1nat,
            _ => 0nat,
        }
    }
}

/// The children `prune` takes away: non-null items of `s` that the guest
/// does not list and that were seen in its graph.
pub open spec fn pruned(g: BackendGraphicsState, s: Seq<u32>, listed: Seq<(u32, i32)>, e: u32) -> bool {
    e != 0 && !listed_has(listed, e) && sprite_of(g, e).guest_graph_observed
}

/// How many items of `s` are pruned (each occurrence counts).
pub open spec fn prune_count(g: BackendGraphicsState, s: Seq<u32>, listed: Seq<(u32, i32)>) -> nat
    decreases s.len(),
{
    if s.len() == 0 {
        0
    } else {
        prune_count(g, s.drop_last(), listed) + if pruned(g, s, listed, s.last()) {
            1nat
        } else {
            0nat
        }
    }
}

/// What pruning does: `n` items of the node's array `c` were pruned; such
/// a child listed only once there is gone and has no parent; every other
/// parent link, every children field and every seen flag is kept, and the
/// array gains nothing.
pub open spec fn prune_effect(
    g0: BackendGraphicsState,
    g1: BackendGraphicsState,
    node: u32,
    listed: Seq<(u32, i32)>,
    n: int,
) -> bool {
    let c = children_of(g0, node);
    let s = arr_items(g0, c);
    &&& g1.synthetic_ui_object_cursor == g0.synthetic_ui_object_cursor
    &&& forall|x: u32| #[trigger] sprite_of(g1, x).children == sprite_of(g0, x).children
    &&& forall|x: u32| #[trigger] sprite_of(g1, x).guest_graph_observed == sprite_of(g0, x).guest_graph_observed
    &&& n == (if c != 0 {
        prune_count(g0, s, listed) as int
    } else {
        0
    })
    &&& forall|x: u32| listed_has(listed, x) ==> #[trigger] parent_of(g1, x) == parent_of(g0, x)
    &&& forall|x: u32| !s.contains(x) ==> #[trigger] parent_of(g1, x) == parent_of(g0, x)
    &&& forall|x: u32| !s.contains(x) ==> !#[trigger] arr_items(g1, c).contains(x)
    &&& c != 0 ==> forall|x: u32|
        s.contains(x) && pruned(g0, s, listed, x) && at_most_once(s, x) ==> !#[trigger] arr_items(g1, c).contains(x)
            && parent_of(g1, x) == 0
}

/// One listed child `c` linked under `node`, from `g` to `g1` with outcome
/// `r`.
pub open spec fn link_step(g: BackendGraphicsState, g1: BackendGraphicsState, node: u32, c: u32, r: GuestChildLink) -> bool {
    let a = children_of(g1, node);
    &&& !(r is Skipped)
    &&& cursor_kept_nonzero(g, g1)
    &&& (!(r is Blocked) && g.synthetic_ui_object_cursor != 0 ==> a != 0)
    &&& (!(r is Blocked) ==> parent_of(g1, c) == node && arr_items(g1, a).contains(c))
    &&& (r is Blocked ==> g1.synthetic_arrays == g.synthetic_arrays && forall|n: u32|
        #[trigger] sprite_of(g1, n).parent == sprite_of(g, n).parent && sprite_of(g1, n).children == sprite_of(
            g,
            n,
        ).children)
    &&& forall|x: u32| x != c ==> #[trigger] parent_of(g1, x) == parent_of(g, x)
    &&& (children_of(g, node) != 0 ==> a == children_of(g, node))
    &&& (children_of(g, node) != 0 ==> forall|x: u32|
        x != c ==> (#[trigger] arr_items(g1, a).contains(x) <==> arr_items(g, a).contains(x)))
}

/// Inserting `d` after taking its first copy out keeps every other value
/// in or out.
proof fn lemma_move_keeps_others(s: Seq<u32>, d: u32, i: int)
    requires
        0 <= i <= remove_first(s, d).len(),
    ensures
        forall|x: u32| x != d ==> (#[trigger] remove_first(s, d).insert(i, d).contains(x) <==> s.contains(x)),
        remove_first(s, d).insert(i, d).contains(d),
{
    assert forall|x: u32| x != d implies (#[trigger] remove_first(s, d).insert(i, d).contains(x) <==> s.contains(x)) by {
        if s.contains(x) {
            lemma_kept_contains(s, x, d, i);
        } else {
            lemma_no_copy_kept(s, x, d, i);
        }
    }
    assert(remove_first(s, d).insert(i, d)[i] == d);
}

/// What linking the listed children does: one outcome per entry, skipped
/// exactly for null entries; every child that was not blocked ends under
/// the node and listed in its children (when the allocation cursor is not
/// null); unlisted nodes keep their parent, and the node's array (when it
/// had one) stays the same and gains no unlisted value.
pub open spec fn link_effect(
    g0: BackendGraphicsState,
    g1: BackendGraphicsState,
    node: u32,
    listed: Seq<(u32, i32)>,
    out: Seq<GuestChildLink>,
) -> bool {
    let a0 = children_of(g0, node);
    &&& out.len() == listed.len()
    &&& forall|i: int| 0 <= i < out.len() ==> ((#[trigger] out[i] is Skipped) <==> listed[i].0 == 0)
    &&& (g0.synthetic_ui_object_cursor != 0 ==> forall|i: int|
        0 <= i < out.len() && listed[i].0 != 0 && !(#[trigger] out[i] is Blocked) ==> parent_of(g1, listed[i].0) == node
            && arr_items(g1, children_of(g1, node)).contains(listed[i].0))
    &&& forall|x: u32| !listed_has(listed, x) ==> #[trigger] parent_of(g1, x) == parent_of(g0, x)
    &&& (a0 != 0 ==> children_of(g1, node) == a0)
    &&& (a0 != 0 ==> forall|x: u32|
        !listed_has(listed, x) && !arr_items(g0, a0).contains(x) ==> !#[trigger] arr_items(g1, a0).contains(x))
    &&& cursor_kept_nonzero(g0, g1)
}

/// A guest-graph walk in progress: nodes still to visit (breadth first),
/// nodes already taken, how many were scanned and how many changes were
/// made.
pub struct GuestGraphWalk {
    pub queue: VecDeque<u32>,
    pub seen: Vec<u32>,
    pub scanned: usize,
    pub changes: usize,
}

/// Index of the first queued node that is not null and not seen yet, or
/// the queue's length.
pub open spec fn first_fresh(q: Seq<u32>, seen: Seq<u32>) -> int
    decreases q.len(),
{
    if q.len() == 0 {
        0
    } else if q[0] != 0 && !seen.contains(q[0]) {
        0
    } else {
        1 + first_fresh(q.drop_first(), seen)
    }
}

proof fn lemma_first_fresh_bound(q: Seq<u32>, seen: Seq<u32>)
    ensures
        0 <= first_fresh(q, seen) <= q.len(),
        first_fresh(q, seen) < q.len() ==> q[first_fresh(q, seen)] != 0 && !seen.contains(q[first_fresh(q, seen)]),
    decreases q.len(),
{
    if q.len() > 0 && !(q[0] != 0 && !seen.contains(q[0])) {
        lemma_first_fresh_bound(q.drop_first(), seen);
    }
}

/// The non-null children of `listed`, in order.
pub open spec fn queued_children(listed: Seq<(u32, i32)>) -> Seq<u32>
    decreases listed.len(),
{
    if listed.len() == 0 {
        Seq::empty()
    } else if listed.last().0 == 0 {
        queued_children(listed.drop_last())
    } else {
        queued_children(listed.drop_last()).push(listed.last().0)
    }
}

/// `a + b`, held at `usize::MAX`.
pub open spec fn sat_add_usize(a: int, b: int) -> int {
    if a + b > usize::MAX {
        usize::MAX as int
    } else {
        a + b
    }
}

/// What reconciling one node does: stale children seen in the guest's
/// graph are taken away (a child listed once in the node's array is gone
/// from it and has no parent), then the listed children are linked
/// (every one not blocked ends under the node and listed in its children,
/// when the allocation cursor is not null).
pub open spec fn guest_node_effect(
    g0: BackendGraphicsState,
    g1: BackendGraphicsState,
    node: u32,
    listed: Seq<(u32, i32)>,
    out: Seq<GuestChildLink>,
) -> bool {
    let a0 = children_of(g0, node);
    let s = arr_items(g0, a0);
    &&& out.len() == listed.len()
    &&& forall|i: int| 0 <= i < out.len() ==> ((#[trigger] out[i] is Skipped) <==> listed[i].0 == 0)
    &&& (g0.synthetic_ui_object_cursor != 0 ==> forall|i: int|
        0 <= i < out.len() && listed[i].0 != 0 && !(#[trigger] out[i] is Blocked) ==> parent_of(g1, listed[i].0) == node
            && arr_items(g1, children_of(g1, node)).contains(listed[i].0))
    &&& (a0 != 0 ==> children_of(g1, node) == a0 && forall|x: u32|
        s.contains(x) && pruned(g0, s, listed, x) && at_most_once(s, x) ==> !#[trigger] arr_items(g1, a0).contains(x)
            && parent_of(g1, x) == 0)
    &&& forall|x: u32| !listed_has(listed, x) && !s.contains(x) ==> #[trigger] parent_of(g1, x) == parent_of(g0, x)
}

/// `x` stays listed when other values are removed or inserted.
proof fn lemma_kept_contains(s: Seq<u32>, x: u32, d: u32, i: int)
    requires
        s.contains(x),
        x != d,
    ensures
        remove_first(s, d).contains(x),
        0 <= i <= remove_first(s, d).len() ==> remove_first(s, d).insert(i, d).contains(x),
{
    lemma_first_index(s, d);
    let k = choose|k: int| 0 <= k < s.len() && s[k] == x;
    let r = remove_first(s, d);
    if s.contains(d) {
        let f = first_index(s, d);
        if k < f {
            assert(r[k] == x);
        } else {
            assert(k != f);
            assert(r[k - 1] == x);
        }
    } else {
        assert(r[k] == x);
    }
    if 0 <= i <= r.len() {
        let kk = choose|kk: int| 0 <= kk < r.len() && r[kk] == x;
        let t = r.insert(i, d);
        if kk < i {
            assert(t[kk] == x);
        } else {
            assert(t[kk + 1] == x);
        }
    }
}

/// Taking a value out never makes another occur twice.
proof fn lemma_remove_keeps_once(s: Seq<u32>, x: u32, d: u32)
    requires
        at_most_once(s, x),
    ensures
        at_most_once(remove_first(s, d), x),
{
    lemma_first_index(s, d);
    if s.contains(d) {
        let f = first_index(s, d);
        let r = s.remove(f);
        assert forall|a: int, b: int| 0 <= a < b < r.len() implies !(#[trigger] r[a] == x && #[trigger] r[b] == x) by {
            let a2 = if a < f { a } else { a + 1 };
            let b2 = if b < f { b } else { b + 1 };
            assert(r[a] == s[a2]);
            assert(r[b] == s[b2]);
            assert(!(s[a2] == x && s[b2] == x));
        }
    }
}

impl GuestGraphWalk {
    /// A walk that starts at `root`.
    pub fn new(root: u32) -> (w: Self)
        ensures
            w.queue@ == seq![root],
            w.seen@.len() == 0,
            w.scanned == 0,
            w.changes == 0,
    {
        let mut queue: VecDeque<u32> = VecDeque::new();
        queue.push_back(root);
        GuestGraphWalk { queue, seen: Vec::new(), scanned: 0, changes: 0 }
    }
}

impl MemoryArm32Backend {
    /// Marks node `n` as seen in the guest's graph.
    fn mark_guest_observed(&mut self, n: u32)
        ensures
            graphics_frame(*old(self), *final(self), false),
            final(self).runtime.graphics.synthetic_arrays == old(self).runtime.graphics.synthetic_arrays,
            final(self).runtime.graphics.synthetic_ui_object_cursor == old(
                self,
            ).runtime.graphics.synthetic_ui_object_cursor,
            final(self).runtime.graphics.synthetic_sprites@ == old(self).runtime.graphics.synthetic_sprites@.insert(
                n,
                super::nodes::SyntheticSpriteState {
                    guest_graph_observed: true,
                    ..sprite_of(old(self).runtime.graphics, n)
                },
            ),
    {
        let mut st = self.sprite_or_default(n);
        st.guest_graph_observed = true;
        self.set_sprite_state(n, st);
    }

    /// Links listed child `c` (not null) with z order `z` under `node`:
    /// one already under it is moved to its z-order place, any other is
    /// attached. Either way it is marked as seen in the guest's graph.
    #[verifier::rlimit(100)]
    #[verifier::spinoff_prover]
    fn link_guest_child(&mut self, node: u32, c: u32, z: i32) -> (r: GuestChildLink)
        requires
            node != 0,
            c != 0,
        ensures
            graphics_frame(*old(self), *final(self), true),
            link_step(old(self).runtime.graphics, final(self).runtime.graphics, node, c, r),
    {
        let ghost g = self.runtime.graphics;
        self.mark_guest_observed(c);
        let ghost gm = self.runtime.graphics;
        proof {
            assert forall|n: u32|
                #[trigger] sprite_of(gm, n).parent == sprite_of(g, n).parent && sprite_of(gm, n).children == sprite_of(
                    g,
                    n,
                ).children by {}
        }
        let kids = self.sprite_or_default(node).children;
        let linked_parent = self.sprite_or_default(c).parent == node;
        let listed_here = kids != 0 && self.synthetic_array_position(kids, c).is_some();
        if linked_parent && c != node && listed_here {
            let a = self.ensure_node_children_array(node);
            let ghost ge = self.runtime.graphics;
            let index = self.place_child(node, c, a, z, None);
            proof {
                let g1 = self.runtime.graphics;
                assert(a == kids);
                assert(arr_items(ge, a) == arr_items(g, a));
                let rest = remove_first(arr_items(ge, a), c);
                lemma_move_keeps_others(arr_items(ge, a), c, index as int);
                assert forall|x: u32| x != c implies #[trigger] parent_of(g1, x) == parent_of(g, x) by {
                    assert(sprite_of(g1, x) == sprite_of(ge, x));
                }
            }
            GuestChildLink::Moved { index }
        } else {
            let out = self.attach_child_to_node(node, c, z, None);
            match out {
                AttachOutcome::Attached { index } => {
                    proof {
                        let g1 = self.runtime.graphics;
                        lemma_attached_child_listed(gm, g1, node, c, z, None, index as int);
                        let a = target_array(gm, node);
                        assert(children_of(g1, node) == a);
                        let ib = items_before_insert(gm, node, c);
                        assert(0 <= index <= remove_first(ib, c).len());
                        lemma_move_keeps_others(ib, c, index as int);
                        if children_of(g, node) != 0 {
                            assert(a == children_of(g, node));
                            assert forall|x: u32| x != c implies (#[trigger] ib.contains(x) <==> arr_items(g, a).contains(x)) by {
                                if ib != arr_items(gm, a) {
                                    if arr_items(gm, a).contains(x) {
                                        lemma_kept_contains(arr_items(gm, a), x, c, 0);
                                    } else {
                                        lemma_no_copy_kept(arr_items(gm, a), x, c, 0);
                                    }
                                }
                            }
                        }
                        assert forall|x: u32| x != c implies #[trigger] parent_of(g1, x) == parent_of(g, x) by {
                            assert(sprite_of(g1, x).parent == sprite_of(gm, x).parent);
                        }
                    }
                    GuestChildLink::Attached { index }
                },
                _ => {
                    GuestChildLink::Blocked
                },
            }
        }
    }

    /// Links every listed child (child, z order) under `node`, in order.
    #[verifier::rlimit(100)]
    #[verifier::spinoff_prover]
    pub fn link_guest_children(&mut self, node: u32, listed: &Vec<(u32, i32)>) -> (out: Vec<GuestChildLink>)
        requires
            node != 0,
        ensures
            graphics_frame(*old(self), *final(self), true),
            link_effect(old(self).runtime.graphics, final(self).runtime.graphics, node, listed@, out@),
    {
        let ghost g0 = self.runtime.graphics;
        let ghost a0 = children_of(g0, node);
        let ghost ls = listed@;
        let mut out: Vec<GuestChildLink> = Vec::new();
        let mut i: usize = 0;
        while i < listed.len()
            invariant
                i <= ls.len(),
                ls == listed@,
                node != 0,
                out@.len() == i,
                graphics_frame(*old(self), *self, true),
                cursor_kept_nonzero(g0, self.runtime.graphics),
                forall|j: int| 0 <= j < i ==> ((#[trigger] out@[j] is Skipped) <==> ls[j].0 == 0),
                g0.synthetic_ui_object_cursor != 0 ==> forall|j: int|
                    0 <= j < i && ls[j].0 != 0 && !(#[trigger] out@[j] is Blocked) ==> parent_of(
                        self.runtime.graphics,
                        ls[j].0,
                    ) == node && children_of(self.runtime.graphics, node) != 0 && arr_items(
                        self.runtime.graphics,
                        children_of(self.runtime.graphics, node),
                    ).contains(ls[j].0),
                forall|x: u32|
                    (forall|j: int| 0 <= j < i ==> (#[trigger] ls[j]).0 != x) ==> #[trigger] parent_of(
                        self.runtime.graphics,
                        x,
                    ) == parent_of(g0, x),
                a0 != 0 ==> children_of(self.runtime.graphics, node) == a0,
                a0 != 0 ==> forall|x: u32|
                    (forall|j: int| 0 <= j < i ==> (#[trigger] ls[j]).0 != x) && !arr_items(g0, a0).contains(x)
                        ==> !#[trigger] arr_items(self.runtime.graphics, a0).contains(x),
            decreases ls.len() - i,
        {
            let (c, z) = listed[i];
            let ghost g = self.runtime.graphics;
            if c == 0 {
                out.push(GuestChildLink::Skipped);
            } else {
                let r = self.link_guest_child(node, c, z);
                out.push(r);
                proof {
                    let g1 = self.runtime.graphics;
                    assert forall|j: int|
                        0 <= j < i + 1 && ls[j].0 != 0 && !(#[trigger] out@[j] is Blocked) && g0.synthetic_ui_object_cursor
                            != 0 implies parent_of(g1, ls[j].0) == node && children_of(g1, node) != 0 && arr_items(
                        g1,
                        children_of(g1, node),
                    ).contains(ls[j].0) by {
                        if j < i {
                            if ls[j].0 != c {
                                assert(children_of(g1, node) == children_of(g, node));
                                assert(arr_items(g1, children_of(g1, node)).contains(ls[j].0));
                            } else if r is Blocked {
                                assert(sprite_of(g1, node).children == sprite_of(g, node).children);
                                assert(sprite_of(g1, c).parent == sprite_of(g, c).parent);
                            }
                        }
                    }
                    assert forall|x: u32|
                        (forall|j: int| 0 <= j < i + 1 ==> (#[trigger] ls[j]).0 != x) implies #[trigger] parent_of(g1, x)
                        == parent_of(g0, x) by {
                        assert(ls[i as int].0 != x);
                        assert forall|j: int| 0 <= j < i implies (#[trigger] ls[j]).0 != x by {
                            assert(0 <= j < i + 1);
                        }
                    }
                    if a0 != 0 {
                        assert forall|x: u32|
                            (forall|j: int| 0 <= j < i + 1 ==> (#[trigger] ls[j]).0 != x) && !arr_items(g0, a0).contains(x)
                                implies !#[trigger] arr_items(g1, a0).contains(x) by {
                            assert(ls[i as int].0 != x);
                            assert forall|j: int| 0 <= j < i implies (#[trigger] ls[j]).0 != x by {
                                assert(0 <= j < i + 1);
                            }
                            if r is Blocked {
                                assert(arr_items(g1, a0) == arr_items(g, a0));
                            }
                        }
                    }
                }
            }
            i = i + 1;
        }
        proof {
            let g1 = self.runtime.graphics;
            assert forall|x: u32| !listed_has(ls, x) implies #[trigger] parent_of(g1, x) == parent_of(g0, x) by {
                assert forall|j: int| 0 <= j < ls.len() implies (#[trigger] ls[j]).0 != x by {}
            }
            if a0 != 0 {
                assert forall|x: u32| !listed_has(ls, x) && !arr_items(g0, a0).contains(x) implies !#[trigger] arr_items(
                    g1,
                    a0,
                ).contains(x) by {
                    assert forall|j: int| 0 <= j < ls.len() implies (#[trigger] ls[j]).0 != x by {}
                }
            }
        }
        out
    }

    /// Reconciles `node` with the children the guest reported for it
    /// (`None` when it could not report them: nothing changes). Counts the
    /// removals and attach attempts in the walk, and queues the non-null
    /// children while fewer than 256 nodes were seen.
    pub fn reconcile_guest_children(
        &mut self,
        walk: &mut GuestGraphWalk,
        node: u32,
        listed: Option<Vec<(u32, i32)>>,
    ) -> (out: Vec<GuestChildLink>)
        requires
            node != 0,
        ensures
            graphics_frame(*old(self), *final(self), true),
            final(walk).seen@ == old(walk).seen@,
            final(walk).scanned == old(walk).scanned,
            match listed {
                None => *final(self) == *old(self) && out@.len() == 0 && final(walk).queue@ == old(walk).queue@
                    && final(walk).changes == old(walk).changes,
                Some(l) => {
                    &&& guest_node_effect(old(self).runtime.graphics, final(self).runtime.graphics, node, l@, out@)
                    &&& final(walk).queue@ == old(walk).queue@ + (if old(walk).seen@.len() < GUEST_GRAPH_SEEN_LIMIT {
                        queued_children(l@)
                    } else {
                        Seq::empty()
                    })
                    &&& final(walk).changes == sat_add_usize(
                        old(walk).changes as int,
                        (if children_of(old(self).runtime.graphics, node) != 0 {
                            prune_count(
                                old(self).runtime.graphics,
                                arr_items(
                                    old(self).runtime.graphics,
                                    children_of(old(self).runtime.graphics, node),
                                ),
                                l@,
                            ) as int
                        } else {
                            0
                        }) + attach_calls(out@),
                    )
                },
            },
    {
        let l = match listed {
            None => return Vec::new(),
            Some(l) => l,
        };
        let ghost g0 = self.runtime.graphics;
        let pruned_n = self.prune_unlisted_guest_children(node, &l);
        let ghost gp = self.runtime.graphics;
        let out = self.link_guest_children(node, &l);
        let ghost g1 = self.runtime.graphics;
        proof {
            let a0 = children_of(g0, node);
            let s = arr_items(g0, a0);
            assert(children_of(gp, node) == a0);
            assert forall|x: u32| !listed_has(l@, x) && !s.contains(x) implies #[trigger] parent_of(g1, x) == parent_of(g0, x) by {
                assert(parent_of(gp, x) == parent_of(g0, x));
            }
            if a0 != 0 {
                assert forall|x: u32|
                    s.contains(x) && pruned(g0, s, l@, x) && at_most_once(s, x) implies !#[trigger] arr_items(g1, a0).contains(
                    x,
                ) && parent_of(g1, x) == 0 by {
                    assert(!arr_items(gp, a0).contains(x));
                    assert(parent_of(gp, x) == 0);
                    assert(!listed_has(l@, x));
                }
            }
        }
        let mut calls: usize = 0;
        let mut i: usize = 0;
        while i < out.len()
            invariant
                i <= out@.len(),
                calls == attach_calls(out@.take(i as int)),
                calls <= i,
            decreases out@.len() - i,
        {
            proof {
                assert(out@.take(i + 1).drop_last() =~= out@.take(i as int));
            }
            match out[i] {
                GuestChildLink::Attached { .. } => {
                    calls = calls + 1;
                },
                GuestChildLink::Blocked => {
                    calls = calls + 1;
                },
                _ => {},
            }
            i = i + 1;
        }
        proof {
            assert(out@.take(out@.len() as int) =~= out@);
        }
        let total = if pruned_n > usize::MAX - calls { usize::MAX } else { pruned_n + calls };
        walk.changes = if walk.changes > usize::MAX - total { usize::MAX } else { walk.changes + total };
        let ghost ch = walk.changes;
        if walk.seen.len() < GUEST_GRAPH_SEEN_LIMIT {
            let ghost q0 = walk.queue@;
            let mut k: usize = 0;
            while k < l.len()
                invariant
                    k <= l@.len(),
                    walk.seen@ == old(walk).seen@,
                    walk.scanned == old(walk).scanned,
                    walk.changes == ch,
                    walk.queue@ == q0 + queued_children(l@.take(k as int)),
                decreases l@.len() - k,
            {
                proof {
                    assert(l@.take(k + 1).drop_last() =~= l@.take(k as int));
                }
                if l[k].0 != 0 {
                    walk.queue.push_back(l[k].0);
                }
                proof {
                    assert(walk.queue@ =~= q0 + queued_children(l@.take(k + 1)));
                }
                k = k + 1;
            }
            proof {
                assert(l@.take(l@.len() as int) =~= l@);
            }
        } else {
            proof {
                assert(walk.queue@ =~= walk.queue@ + Seq::<u32>::empty());
            }
        }
        out
    }

    /// Takes the next node of the walk: the first queued node that is not
    /// null and not seen yet, which becomes seen and counts as scanned.
    /// `None` when the queue holds no such node, or when this would be the
    /// 129th node scanned (the walk then ends: its queue is emptied). The
    /// node taken is marked as seen in the guest's graph.
    pub fn next_guest_graph_node(&mut self, walk: &mut GuestGraphWalk) -> (r: Option<u32>)
        ensures
            graphics_frame(*old(self), *final(self), false),
            ({
                let q = old(walk).queue@;
                let k = first_fresh(q, old(walk).seen@);
                if k >= q.len() {
                    &&& r is None
                    &&& final(walk).queue@.len() == 0
                    &&& final(walk).seen@ == old(walk).seen@
                    &&& final(walk).scanned == old(walk).scanned
                    &&& *final(self) == *old(self)
                } else {
                    let n = q[k];
                    let scanned = if old(walk).scanned == usize::MAX {
                        usize::MAX as int
                    } else {
                        old(walk).scanned + 1
                    };
                    &&& final(walk).seen@ == old(walk).seen@.push(n)
                    &&& final(walk).scanned == scanned
                    &&& if scanned > GUEST_GRAPH_SCAN_LIMIT {
                        &&& r is None
                        &&& final(walk).queue@.len() == 0
                        &&& *final(self) == *old(self)
                    } else {
                        &&& r == Some(n)
                        &&& final(walk).queue@ == q.skip(k + 1)
                        &&& final(self).runtime.graphics.synthetic_sprites@ == old(
                            self,
                        ).runtime.graphics.synthetic_sprites@.insert(
                            n,
                            super::nodes::SyntheticSpriteState {
                                guest_graph_observed: true,
                                ..sprite_of(old(self).runtime.graphics, n)
                            },
                        )
                        &&& final(self).runtime.graphics.synthetic_arrays == old(self).runtime.graphics.synthetic_arrays
                    }
                }
            }),
            final(walk).changes == old(walk).changes,
    {
        let ghost q = walk.queue@;
        let ghost seen0 = walk.seen@;
        let ghost t: int = 0;
        proof {
            assert(q.skip(0) =~= q);
        }
        loop
            invariant
                0 <= t <= q.len(),
                walk.queue@ == q.skip(t),
                walk.seen@ == seen0,
                walk.scanned == old(walk).scanned,
                walk.changes == old(walk).changes,
                *self == *old(self),
                first_fresh(q, seen0) == t + first_fresh(q.skip(t), seen0),
            decreases q.len() - t,
        {
            let ghost before = walk.queue@;
            let node = match walk.queue.pop_front() {
                Some(n) => n,
                None => {
                    proof {
                        assert(q.skip(t).len() == 0);
                        lemma_first_fresh_bound(q, seen0);
                    }
                    return None;
                },
            };
            proof {
                assert(node == q[t]);
                assert(walk.queue@ =~= q.skip(t + 1));
                assert(q.skip(t).drop_first() =~= q.skip(t + 1));
            }
            let mut seen_before = false;
            let mut j: usize = 0;
            while j < walk.seen.len()
                invariant
                    j <= walk.seen@.len(),
                    seen_before == exists|a: int| 0 <= a < j && walk.seen@[a] == node,
                decreases walk.seen@.len() - j,
            {
                if walk.seen[j] == node {
                    seen_before = true;
                }
                j = j + 1;
            }
            if node != 0 && !seen_before {
                proof {
                    assert(first_fresh(q.skip(t), seen0) == 0);
                }
                walk.seen.push(node);
                walk.scanned = if walk.scanned == usize::MAX { usize::MAX } else { walk.scanned + 1 };
                if walk.scanned > GUEST_GRAPH_SCAN_LIMIT {
                    walk.queue.clear();
                    return None;
                }
                self.mark_guest_observed(node);
                return Some(node);
            }
            proof {
                t = t + 1;
            }
        }
    }

    /// Takes away from `node` every child its array held at the start that
    /// the guest no longer lists and that was seen in the guest's graph;
    /// returns how many removals were made (one per such item).
    #[verifier::rlimit(100)]
    #[verifier::spinoff_prover]
    pub fn prune_unlisted_guest_children(&mut self, node: u32, listed: &Vec<(u32, i32)>) -> (n: usize)
        ensures
            graphics_frame(*old(self), *final(self), false),
            prune_effect(old(self).runtime.graphics, final(self).runtime.graphics, node, listed@, n as int),
    {
        let ghost g0 = self.runtime.graphics;
        let c = self.sprite_or_default(node).children;
        if c == 0 {
            return 0;
        }
        let len = self.synthetic_array_len(c);
        let mut existing: Vec<u32> = Vec::new();
        let mut k: usize = 0;
        while k < len
            invariant
                k <= len,
                len == arr_items(g0, c).len(),
                self.runtime.graphics == g0,
                existing@ == arr_items(g0, c).take(k as int),
            decreases len - k,
        {
            existing.push(self.synthetic_array_get(c, k));
            assert(existing@ =~= arr_items(g0, c).take(k + 1));
            k = k + 1;
        }
        let ghost s = arr_items(g0, c);
        assert(existing@ =~= s);
        let mut removed: usize = 0;
        let mut j: usize = 0;
        while j < existing.len()
            invariant
                j <= existing@.len(),
                existing@ == s,
                s == arr_items(g0, c),
                c == children_of(g0, node),
                c != 0,
                removed == prune_count(g0, s.take(j as int), listed@),
                removed <= j,
                graphics_frame(*old(self), *self, false),
                self.runtime.graphics.synthetic_ui_object_cursor == g0.synthetic_ui_object_cursor,
                forall|x: u32| #[trigger] sprite_of(self.runtime.graphics, x).children == sprite_of(g0, x).children,
                forall|x: u32|
                    #[trigger] sprite_of(self.runtime.graphics, x).guest_graph_observed == sprite_of(
                        g0,
                        x,
                    ).guest_graph_observed,
                forall|x: u32|
                    !s.take(j as int).contains(x) || !pruned(g0, s, listed@, x) ==> #[trigger] parent_of(
                        self.runtime.graphics,
                        x,
                    ) == parent_of(g0, x),
                forall|x: u32| !s.contains(x) ==> !#[trigger] arr_items(self.runtime.graphics, c).contains(x),
                forall|x: u32| at_most_once(s, x) ==> #[trigger] at_most_once(arr_items(self.runtime.graphics, c), x),
                forall|x: u32|
                    s.contains(x) && at_most_once(s, x) && !s.take(j as int).contains(x) ==> #[trigger] arr_items(
                        self.runtime.graphics,
                        c,
                    ).contains(x),
                forall|x: u32|
                    s.take(j as int).contains(x) && pruned(g0, s, listed@, x) && at_most_once(s, x) ==> !#[trigger] arr_items(
                        self.runtime.graphics,
                        c,
                    ).contains(x) && parent_of(self.runtime.graphics, x) == 0,
            decreases existing@.len() - j,
        {
            let e = existing[j];
            let ghost g = self.runtime.graphics;
            proof {
                assert(s.take(j + 1).drop_last() =~= s.take(j as int));
                assert(s.take(j + 1).last() == e);
                assert forall|x: u32| #[trigger] s.take(j + 1).contains(x) <==> (s.take(j as int).contains(x) || x == e) by {
                    let t1 = s.take(j + 1);
                    if t1.contains(x) {
                        let q = choose|q: int| 0 <= q < t1.len() && t1[q] == x;
                        if q < j {
                            assert(s.take(j as int)[q] == x);
                        }
                    }
                    if x == e {
                        assert(s.take(j + 1)[j as int] == x);
                    }
                    if s.take(j as int).contains(x) {
                        let q = choose|q: int| 0 <= q < j && s.take(j as int)[q] == x;
                        assert(s.take(j + 1)[q] == x);
                    }
                }
            }
            let mut is_listed = false;
            let mut q: usize = 0;
            while q < listed.len()
                invariant
                    q <= listed@.len(),
                    is_listed == exists|t: int| 0 <= t < q && (#[trigger] listed@[t]).0 == e,
                decreases listed@.len() - q,
            {
                if listed[q].0 == e {
                    is_listed = true;
                }
                q = q + 1;
            }
            let observed = self.sprite_or_default(e).guest_graph_observed;
            proof {
                assert(is_listed == listed_has(listed@, e));
                assert(observed == sprite_of(g0, e).guest_graph_observed);
            }
            if e != 0 && !is_listed && observed {
                proof {
                    assert(pruned(g0, s, listed@, e));
                }
                self.remove_layer(node, e);
                removed = removed + 1;
                proof {
                    let g1 = self.runtime.graphics;
                    assert(children_of(g, node) == c);
                    assert forall|x: u32|
                        !s.take(j + 1).contains(x) || !pruned(g0, s, listed@, x) implies #[trigger] parent_of(g1, x)
                        == parent_of(g0, x) by {
                        if x != e {
                            assert(sprite_of(g1, x).parent == sprite_of(g, x).parent);
                            assert(parent_of(g, x) == parent_of(g0, x));
                        }
                    }
                    assert forall|x: u32| !s.contains(x) implies !#[trigger] arr_items(g1, c).contains(x) by {
                        if arr_items(g, c).contains(e) {
                            lemma_no_copy_kept(arr_items(g, c), x, e, 0);
                        }
                    }
                    assert forall|x: u32|
                        s.contains(x) && at_most_once(s, x) && !s.take(j + 1).contains(x) implies #[trigger] arr_items(
                        g1,
                        c,
                    ).contains(x) by {
                        assert(arr_items(g, c).contains(x));
                        if arr_items(g, c).contains(e) {
                            lemma_kept_contains(arr_items(g, c), x, e, 0);
                        }
                    }
                    assert forall|x: u32| at_most_once(s, x) implies #[trigger] at_most_once(arr_items(g1, c), x) by {
                        assert(at_most_once(arr_items(g, c), x));
                        if arr_items(g, c).contains(e) {
                            lemma_remove_keeps_once(arr_items(g, c), x, e);
                        }
                    }
                    if at_most_once(s, e) {
                        assert(!s.take(j as int).contains(e)) by {
                            if s.take(j as int).contains(e) {
                                let q = choose|q: int| 0 <= q < j && s.take(j as int)[q] == e;
                                assert(s[q] == e && s[j as int] == e);
                            }
                        }
                        assert(arr_items(g, c).contains(e));
                        lemma_remove_only_copy(arr_items(g, c), e);
                        assert(!arr_items(g1, c).contains(e));
                        assert(sprite_of(g1, e).parent == 0);
                        assert(parent_of(g1, e) == 0);
                    }
                    assert forall|x: u32|
                        s.take(j as int).contains(x) && pruned(g0, s, listed@, x) && at_most_once(s, x) implies !#[trigger] arr_items(
                        g1,
                        c,
                    ).contains(x) && parent_of(g1, x) == 0 by {
                        if x == e {
                            let q = choose|q: int| 0 <= q < j && s.take(j as int)[q] == x;
                            assert(s[q] == e && s[j as int] == e);
                        }
                        if arr_items(g, c).contains(e) {
                            lemma_no_copy_kept(arr_items(g, c), x, e, 0);
                        }
                    }
                }
            }
            proof {
                assert forall|x: u32|
                    s.take(j + 1).contains(x) && pruned(g0, s, listed@, x) && at_most_once(s, x) implies !#[trigger] arr_items(
                    self.runtime.graphics,
                    c,
                ).contains(x) && parent_of(self.runtime.graphics, x) == 0 by {
                    if x != e {
                        assert(s.take(j as int).contains(x));
                    }
                }
                assert forall|x: u32|
                    !s.take(j + 1).contains(x) || !pruned(g0, s, listed@, x) implies #[trigger] parent_of(
                    self.runtime.graphics,
                    x,
                ) == parent_of(g0, x) by {
                    if s.take(j as int).contains(x) && pruned(g0, s, listed@, x) {
                        assert(s.take(j + 1).contains(x));
                    }
                }
            }
            j = j + 1;
        }
        proof {
            let g1 = self.runtime.graphics;
            assert(s.take(s.len() as int) =~= s);
            assert(removed == prune_count(g0, s, listed@));
            assert forall|x: u32| listed_has(listed@, x) implies #[trigger] parent_of(g1, x) == parent_of(g0, x) by {
                assert(!pruned(g0, s, listed@, x));
            }
            assert forall|x: u32| !s.contains(x) implies #[trigger] parent_of(g1, x) == parent_of(g0, x) by {
                assert(!s.take(s.len() as int).contains(x));
            }
            assert forall|x: u32|
                s.contains(x) && pruned(g0, s, listed@, x) && at_most_once(s, x) implies !#[trigger] arr_items(
                g1,
                c,
            ).contains(x) && parent_of(g1, x) == 0 by {
                assert(s.take(s.len() as int).contains(x));
            }
            assert(g1.synthetic_ui_object_cursor == g0.synthetic_ui_object_cursor);
            assert(forall|x: u32| #[trigger] sprite_of(g1, x).children == sprite_of(g0, x).children);
            assert(forall|x: u32|
                #[trigger] sprite_of(g1, x).guest_graph_observed == sprite_of(g0, x).guest_graph_observed);
            assert(forall|x: u32| !s.contains(x) ==> !#[trigger] arr_items(g1, c).contains(x));
            assert(prune_effect(g0, g1, node, listed@, removed as int));
        }
        removed
    }
}

} // verus!
