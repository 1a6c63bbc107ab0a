//! Attaching a node to a parent in the synthetic scene graph: the child
//! leaves its old parent, takes its place among the parent's children by z
//! order, and the lifecycle notifications the guest is owed are decided.
use vstd::prelude::*;
use super::MemoryArm32Backend;
use super::nodes::{
    arr_count, arr_items, children_of, first_above, first_index, graphics_frame, opt_seq, parent_of,
    cycle_walk, spec_attach_cycle, spec_insert_index_for_z, sprite_of, z_of, BackendGraphicsState, SyntheticSpriteState,
};

verus! {

/// `s` without its first `v`.
pub open spec fn remove_first(s: Seq<u32>, v: u32) -> Seq<u32> {
    if s.contains(v) {
        s.remove(first_index(s, v))
    } else {
        s
    }
}

/// Attaching `child` to `parent` takes it away from another parent first.
pub open spec fn leaves_old_parent(g: BackendGraphicsState, parent: u32, child: u32) -> bool {
    parent_of(g, child) != 0 && parent_of(g, child) != parent
}

/// The children array `parent` ends up with: its own, or a new one at the
/// allocation cursor.
pub open spec fn target_array(g: BackendGraphicsState, parent: u32) -> u32 {
    if children_of(g, parent) != 0 {
        children_of(g, parent)
    } else {
        g.synthetic_ui_object_cursor
    }
}

/// The children array of the old parent that `child` leaves.
pub open spec fn old_children(g: BackendGraphicsState, child: u32) -> u32 {
    children_of(g, parent_of(g, child))
}

/// The items of the target array once `child` has left its old parent.
pub open spec fn items_before_insert(g: BackendGraphicsState, parent: u32, child: u32) -> Seq<u32> {
    let a = target_array(g, parent);
    let s = arr_items(g, a);
    if leaves_old_parent(g, parent, child) && old_children(g, child) != 0 && old_children(g, child) == a {
        remove_first(s, child)
    } else {
        s
    }
}

/// Where `child` is inserted among `items` for z order `z`: before the
/// first other child with a higher z order (counted as if `child` were
/// already taken out), at the end otherwise.
pub open spec fn insert_index_in(g: BackendGraphicsState, a: u32, items: Seq<u32>, child: u32, z: i32) -> int {
    if a == 0 || items.len() == 0 {
        0
    } else {
        let at = first_above(g, items, child, z);
        let existing = first_index(items, child);
        if existing < items.len() && existing < at {
            at - 1
        } else {
            at
        }
    }
}

/// The index `child` takes: the z-order index, held to the list length.
pub open spec fn attach_index(g: BackendGraphicsState, parent: u32, child: u32, z: i32) -> int {
    let items = items_before_insert(g, parent, child);
    let at = insert_index_in(g, target_array(g, parent), items, child, z);
    let rest = remove_first(items, child);
    if at < rest.len() {
        at
    } else {
        rest.len() as int
    }
}

/// The state of `child` once attached.
pub open spec fn attached_child(g: BackendGraphicsState, parent: u32, child: u32, z: i32, tag: Option<u32>) -> SyntheticSpriteState {
    let st = sprite_of(g, child);
    SyntheticSpriteState {
        parent,
        z_order: z,
        tag: match tag {
            Some(t) => t,
            None => st.tag,
        },
        ..st
    }
}

/// What attaching does to the node graph, from `g0` to `g1`, with `child`
/// placed at `index`.
pub open spec fn attach_effect(
    g0: BackendGraphicsState,
    g1: BackendGraphicsState,
    parent: u32,
    child: u32,
    z: i32,
    tag: Option<u32>,
    index: int,
) -> bool {
    let a = target_array(g0, parent);
    let oc = old_children(g0, child);
    let items = items_before_insert(g0, parent, child);
    &&& index == attach_index(g0, parent, child, z)
    &&& children_of(g1, parent) == a
    &&& arr_items(g1, a) == remove_first(items, child).insert(index, child)
    &&& sprite_of(g1, child) == attached_child(g0, parent, child, z, tag)
    &&& (leaves_old_parent(g0, parent, child) && oc != 0 && oc != a ==> arr_items(g1, oc) == remove_first(
        arr_items(g0, oc),
        child,
    ))
    &&& forall|k: u32|
        k != a && (k != oc || !leaves_old_parent(g0, parent, child)) && #[trigger] g0.synthetic_arrays@.contains_key(k)
            ==> g1.synthetic_arrays@.contains_key(k) && g1.synthetic_arrays@[k] == g0.synthetic_arrays@[k]
    &&& forall|n: u32|
        n != parent && n != child && #[trigger] g0.synthetic_sprites@.contains_key(n) ==> g1.synthetic_sprites@.contains_key(
            n,
        ) && g1.synthetic_sprites@[n] == g0.synthetic_sprites@[n]
}

/// After an attach the child is listed among its new parent's children, at
/// the index the attach reported, and names that parent as its own.
pub proof fn lemma_attached_child_listed(
    g0: BackendGraphicsState,
    g1: BackendGraphicsState,
    parent: u32,
    child: u32,
    z: i32,
    tag: Option<u32>,
    index: int,
)
    requires
        attach_effect(g0, g1, parent, child, z, tag, index),
    ensures
        0 <= index < arr_items(g1, children_of(g1, parent)).len(),
        arr_items(g1, children_of(g1, parent))[index] == child,
        parent_of(g1, child) == parent,
{
    let items = items_before_insert(g0, parent, child);
    let rest = remove_first(items, child);
    assert(0 <= index <= rest.len()) by {
        if items.len() > 0 {
            lemma_first_above_bounds(g0, items, child, z);
            lemma_first_index_nonneg(items, child);
        }
    }
}

/// `first_index` is never negative.
proof fn lemma_first_index_nonneg(s: Seq<u32>, v: u32)
    ensures
        first_index(s, v) >= 0,
    decreases s.len(),
{
    if s.len() > 0 {
        lemma_first_index_nonneg(s.drop_first(), v);
    }
}

/// `first_above` stays within the list.
proof fn lemma_first_above_bounds(g: BackendGraphicsState, items: Seq<u32>, child: u32, z: i32)
    ensures
        0 <= first_above(g, items, child, z) <= items.len(),
    decreases items.len(),
{
    if items.len() > 0 {
        lemma_first_above_bounds(g, items.drop_first(), child, z);
    }
}

/// A non-null allocation cursor stays non-null.
pub open spec fn cursor_kept_nonzero(g0: BackendGraphicsState, g1: BackendGraphicsState) -> bool {
    g0.synthetic_ui_object_cursor != 0 ==> g1.synthetic_ui_object_cursor != 0
}

/// After attaching `child` under `parent`, only the child's parent link
/// changed (to `parent`), and no other node's entered flag.
pub open spec fn links_after_attach(g0: BackendGraphicsState, g1: BackendGraphicsState, parent: u32, child: u32) -> bool {
    forall|n: u32|
        #![trigger sprite_of(g1, n)]
        (sprite_of(g1, n).parent == if n == child {
            parent
        } else {
            sprite_of(g0, n).parent
        }) && (n != child ==> sprite_of(g1, n).entered == sprite_of(g0, n).entered)
}

/// The parent links and entered flags through the three steps of an attach.
proof fn lemma_attach_links(
    g0: BackendGraphicsState,
    gd: BackendGraphicsState,
    ge: BackendGraphicsState,
    g1: BackendGraphicsState,
    parent: u32,
    child: u32,
    a: u32,
    st: SyntheticSpriteState,
)
    requires
        parent != child,
        forall|n: u32| n != child ==> #[trigger] sprite_of(gd, n) == sprite_of(g0, n),
        forall|n: u32| n != parent ==> #[trigger] sprite_of(ge, n) == sprite_of(gd, n),
        sprite_of(ge, parent) == (SyntheticSpriteState { children: a, ..sprite_of(gd, parent) }),
        st.parent == parent,
        g1.synthetic_sprites@ == ge.synthetic_sprites@.insert(child, st),
    ensures
        links_after_attach(g0, g1, parent, child),
{
    assert forall|n: u32|
        #![trigger sprite_of(g1, n)]
        (sprite_of(g1, n).parent == if n == child {
            parent
        } else {
            sprite_of(g0, n).parent
        }) && (n != child ==> sprite_of(g1, n).entered == sprite_of(g0, n).entered) by {
        if n != child {
            assert(sprite_of(g1, n) == sprite_of(ge, n));
            assert(sprite_of(gd, n) == sprite_of(g0, n));
        }
    }
}

/// Walking up the parent links from `n` reaches a null parent within `k`
/// steps.
pub open spec fn reaches_root(g: BackendGraphicsState, n: u32, k: nat) -> bool
    decreases k,
{
    if n == 0 {
        true
    } else if k == 0 {
        false
    } else {
        reaches_root(g, parent_of(g, n), (k - 1) as nat)
    }
}

/// As `reaches_root`, never passing node `c`.
pub open spec fn reaches_root_avoiding(g: BackendGraphicsState, n: u32, k: nat, c: u32) -> bool
    decreases k,
{
    if n == 0 {
        true
    } else if k == 0 || n == c {
        false
    } else {
        reaches_root_avoiding(g, parent_of(g, n), (k - 1) as nat, c)
    }
}

proof fn lemma_reaches_root_mono(g: BackendGraphicsState, n: u32, k: nat, k2: nat)
    requires
        k <= k2,
        reaches_root(g, n, k),
    ensures
        reaches_root(g, n, k2),
    decreases k,
{
    if n != 0 {
        lemma_reaches_root_mono(g, parent_of(g, n), (k - 1) as nat, (k2 - 1) as nat);
    }
}

/// A cycle check that finds nothing, on a chain that ends, never passes
/// the child.
proof fn lemma_walk_avoids(g: BackendGraphicsState, c: u32, chain: Seq<u32>, cur: u32, fuel: nat)
    requires
        cycle_walk(g, c, chain, cur, fuel) is None,
        reaches_root(g, cur, fuel),
    ensures
        reaches_root_avoiding(g, cur, fuel, c),
    decreases fuel,
{
    if cur != 0 && fuel > 0 {
        lemma_walk_avoids(g, c, chain.push(cur), parent_of(g, cur), (fuel - 1) as nat);
    }
}

/// A chain that avoids the re-linked child is the same after the attach.
proof fn lemma_avoiding_kept(g0: BackendGraphicsState, g1: BackendGraphicsState, parent: u32, child: u32, n: u32, k: nat)
    requires
        links_after_attach(g0, g1, parent, child),
        reaches_root_avoiding(g0, n, k, child),
    ensures
        reaches_root(g1, n, k),
    decreases k,
{
    if n != 0 {
        assert(sprite_of(g1, n).parent == sprite_of(g0, n).parent);
        lemma_avoiding_kept(g0, g1, parent, child, parent_of(g0, n), (k - 1) as nat);
    }
}

/// A chain of `k` links before the attach has at most `k + 257` after it.
proof fn lemma_reach_after(g0: BackendGraphicsState, g1: BackendGraphicsState, parent: u32, child: u32, n: u32, k: nat)
    requires
        links_after_attach(g0, g1, parent, child),
        reaches_root(g1, parent, 256),
        reaches_root(g0, n, k),
    ensures
        reaches_root(g1, n, k + 257),
    decreases k,
{
    if n == 0 {
    } else if n == child {
        assert(sprite_of(g1, n).parent == parent);
        lemma_reaches_root_mono(g1, parent, 256, (k + 256) as nat);
    } else {
        assert(sprite_of(g1, n).parent == sprite_of(g0, n).parent);
        lemma_reach_after(g0, g1, parent, child, parent_of(g0, n), (k - 1) as nat);
    }
}

/// Attaching keeps the parent links acyclic: when every parent chain
/// ended within 256 links before an attach that was not blocked as a
/// cycle, every chain ends within 513 links after it.
pub proof fn lemma_attach_keeps_links_acyclic(g0: BackendGraphicsState, g1: BackendGraphicsState, parent: u32, child: u32)
    requires
        parent != 0,
        child != 0,
        spec_attach_cycle(g0, parent, child) is None,
        links_after_attach(g0, g1, parent, child),
        forall|n: u32| #[trigger] reaches_root(g0, n, 256),
    ensures
        forall|n: u32| #[trigger] reaches_root(g1, n, 513),
{
    assert(reaches_root(g0, parent, 256));
    lemma_walk_avoids(g0, child, Seq::empty(), parent, 256);
    lemma_avoiding_kept(g0, g1, parent, child, parent, 256);
    assert forall|n: u32| #[trigger] reaches_root(g1, n, 513) by {
        assert(reaches_root(g0, n, 256));
        lemma_reach_after(g0, g1, parent, child, n, 256);
    }
}

/// `first_above` only reads the z order of nodes other than `child`.
proof fn lemma_first_above_same(g0: BackendGraphicsState, g1: BackendGraphicsState, items: Seq<u32>, child: u32, z: i32)
    requires
        forall|n: u32| n != child ==> #[trigger] z_of(g1, n) == z_of(g0, n),
    ensures
        first_above(g1, items, child, z) == first_above(g0, items, child, z),
    decreases items.len(),
{
    if items.len() > 0 {
        lemma_first_above_same(g0, g1, items.drop_first(), child, z);
    }
}

/// What an attach request came to.
#[derive(Debug, Clone, Copy, PartialEq, Eq)]
pub enum AttachOutcome {
    /// The parent or the child was null: nothing changed.
    Ignored,
    /// The child is the parent or one of its ancestors: nothing changed.
    CycleBlocked,
    /// The child was attached at `index` among the parent's children.
    Attached { index: usize },
}

impl MemoryArm32Backend {
    /// Attaches `child` under `parent` with z order `z_order` (and `tag`,
    /// when given). A null parent or child, or a child that is the parent
    /// or one of its ancestors, leaves the graph unchanged. Otherwise the
    /// child leaves its old parent's children, moves to its z-order place
    /// among the parent's children (an array is created for the parent when
    /// it has none) and records its new parent, z order and tag.
    pub fn attach_child_to_node(&mut self, parent: u32, child: u32, z_order: i32, tag: Option<u32>) -> (r: AttachOutcome)
        ensures
            parent == 0 || child == 0 ==> r == AttachOutcome::Ignored && *final(self) == *old(self),
            parent != 0 && child != 0 && spec_attach_cycle(old(self).runtime.graphics, parent, child) is Some ==> r
                == AttachOutcome::CycleBlocked && *final(self) == *old(self),
            parent != 0 && child != 0 && spec_attach_cycle(old(self).runtime.graphics, parent, child) is None ==> {
                &&& r matches AttachOutcome::Attached { index } && attach_effect(
                    old(self).runtime.graphics,
                    final(self).runtime.graphics,
                    parent,
                    child,
                    z_order,
                    tag,
                    index as int,
                )
                &&& graphics_frame(
                    *old(self),
                    *final(self),
                    children_of(old(self).runtime.graphics, parent) == 0,
                )
                &&& links_after_attach(old(self).runtime.graphics, final(self).runtime.graphics, parent, child)
                &&& cursor_kept_nonzero(old(self).runtime.graphics, final(self).runtime.graphics)
            },
    {
        if parent == 0 || child == 0 {
            return AttachOutcome::Ignored;
        }
        let cycle = self.would_create_synthetic_cycle(parent, child);
        if cycle.is_some() {
            proof {
                assert(opt_seq(cycle) is Some);
            }
            return AttachOutcome::CycleBlocked;
        }
        let index = self.attach_child_graph(parent, child, z_order, tag);
        AttachOutcome::Attached { index }
    }

    /// Takes `child` away from its old parent when that is not `parent`.
    #[verifier::rlimit(100)]
    #[verifier::spinoff_prover]
    fn leave_old_parent(&mut self, parent: u32, child: u32)
        requires
            parent != 0,
            child != 0,
            parent != child,
        ensures
            graphics_frame(*old(self), *final(self), false),
            ({
                let g0 = old(self).runtime.graphics;
                let gd = final(self).runtime.graphics;
                let oc = old_children(g0, child);
                &&& gd.synthetic_ui_object_cursor == g0.synthetic_ui_object_cursor
                &&& forall|n: u32|
                    n != child ==> (#[trigger] gd.synthetic_sprites@.contains_key(n)
                        == g0.synthetic_sprites@.contains_key(n) && sprite_of(gd, n) == sprite_of(g0, n))
                &&& forall|n: u32|
                    n != child && #[trigger] g0.synthetic_sprites@.contains_key(n) ==> gd.synthetic_sprites@[n]
                        == g0.synthetic_sprites@[n]
                &&& sprite_of(gd, child) == SyntheticSpriteState {
                    parent: if leaves_old_parent(g0, parent, child) {
                        0
                    } else {
                        parent_of(g0, child)
                    },
                    ..sprite_of(g0, child)
                }
                &&& arr_items(gd, target_array(g0, parent)) == items_before_insert(g0, parent, child)
                &&& arr_count(gd, target_array(g0, parent)) == arr_count(gd, target_array(g0, parent))
                &&& (leaves_old_parent(g0, parent, child) && oc != 0 ==> arr_items(gd, oc) == remove_first(
                    arr_items(g0, oc),
                    child,
                ))
                &&& forall|k: u32|
                    (k != oc || !leaves_old_parent(g0, parent, child)) && #[trigger] g0.synthetic_arrays@.contains_key(
                        k,
                    ) ==> gd.synthetic_arrays@.contains_key(k) && gd.synthetic_arrays@[k] == g0.synthetic_arrays@[k]
                &&& forall|k: u32|
                    #[trigger] gd.synthetic_arrays@.contains_key(k) ==> g0.synthetic_arrays@.contains_key(k) || (k == oc
                        && leaves_old_parent(g0, parent, child))
            }),
    {
        let ghost g0 = self.runtime.graphics;
        let old_parent = self.sprite_or_default(child).parent;
        if old_parent != 0 && old_parent != parent {
            self.detach_child_from_parent(child);
            proof {
                let gd = self.runtime.graphics;
                let oc = old_children(g0, child);
                let a = target_array(g0, parent);
                if oc != 0 && oc == a {
                } else if oc != 0 {
                    if g0.synthetic_arrays@.contains_key(a) {
                        assert(gd.synthetic_arrays@[a] == g0.synthetic_arrays@[a]);
                    } else {
                        assert(!gd.synthetic_arrays@.contains_key(a));
                    }
                }
            }
        }
    }

    /// Puts `child` at its z-order place in array `children` of `parent`
    /// and records its parent, z order and tag.
    #[verifier::rlimit(100)]
    #[verifier::spinoff_prover]
    pub(crate) fn place_child(&mut self, parent: u32, child: u32, children: u32, z_order: i32, tag: Option<u32>) -> (index: usize)
        requires
            children_of(old(self).runtime.graphics, parent) == children,
            parent != child,
        ensures
            graphics_frame(*old(self), *final(self), false),
            ({
                let g = old(self).runtime.graphics;
                let g1 = final(self).runtime.graphics;
                let items = arr_items(g, children);
                let at = insert_index_in(g, children, items, child, z_order);
                let rest = remove_first(items, child);
                &&& index == (if at < rest.len() {
                    at
                } else {
                    rest.len() as int
                })
                &&& arr_items(g1, children) == rest.insert(index as int, child)
                &&& children_of(g1, parent) == children
                &&& sprite_of(g1, child) == SyntheticSpriteState {
                    parent,
                    z_order,
                    tag: match tag {
                        Some(t) => t,
                        None => sprite_of(g, child).tag,
                    },
                    ..sprite_of(g, child)
                }
                &&& forall|k: u32|
                    k != children && #[trigger] g.synthetic_arrays@.contains_key(k) ==> g1.synthetic_arrays@.contains_key(k)
                        && g1.synthetic_arrays@[k] == g.synthetic_arrays@[k]
                &&& g1.synthetic_arrays@.dom() == g.synthetic_arrays@.dom().insert(children)
                &&& g1.synthetic_sprites@ == g.synthetic_sprites@.insert(
                    child,
                    SyntheticSpriteState {
                        parent,
                        z_order,
                        tag: match tag {
                            Some(t) => t,
                            None => sprite_of(g, child).tag,
                        },
                        ..sprite_of(g, child)
                    },
                )
                &&& g1.synthetic_ui_object_cursor == g.synthetic_ui_object_cursor
            }),
    {
        let insert_at = self.synthetic_child_insert_index_for_z(parent, child, z_order);
        let index = self.synthetic_array_insert_or_move(children, insert_at, child);
        let mut st = self.sprite_or_default(child);
        st.parent = parent;
        st.z_order = z_order;
        match tag {
            Some(t) => {
                st.tag = t;
            },
            None => {},
        }
        self.set_sprite_state(child, st);
        index
    }

    /// The graph work of an attach, for a non-null pair that makes no
    /// cycle.
    #[verifier::spinoff_prover]
    #[verifier::rlimit(50)]
    fn attach_child_graph(&mut self, parent: u32, child: u32, z_order: i32, tag: Option<u32>) -> (index: usize)
        requires
            parent != 0,
            child != 0,
            spec_attach_cycle(old(self).runtime.graphics, parent, child) is None,
        ensures
            attach_effect(
                old(self).runtime.graphics,
                final(self).runtime.graphics,
                parent,
                child,
                z_order,
                tag,
                index as int,
            ),
            graphics_frame(*old(self), *final(self), children_of(old(self).runtime.graphics, parent) == 0),
            links_after_attach(old(self).runtime.graphics, final(self).runtime.graphics, parent, child),
            cursor_kept_nonzero(old(self).runtime.graphics, final(self).runtime.graphics),
    {
        let ghost g0 = self.runtime.graphics;
        proof {
            assert(parent != child) by {
                if parent == child {
                    assert(spec_attach_cycle(g0, parent, child) is Some);
                }
            }
        }
        self.leave_old_parent(parent, child);
        let ghost gd = self.runtime.graphics;
        let children = self.ensure_node_children_array(parent);
        let ghost ge = self.runtime.graphics;
        proof {
            lemma_children_array_kept(gd, ge, parent, children);
        }
        let index = self.place_child(parent, child, children, z_order, tag);
        proof {
            lemma_attach_compose(g0, gd, ge, self.runtime.graphics, parent, child, children, z_order, tag, index as int);
            let st = SyntheticSpriteState {
                parent,
                z_order,
                tag: match tag {
                    Some(t) => t,
                    None => sprite_of(ge, child).tag,
                },
                ..sprite_of(ge, child)
            };
            assert forall|n: u32| n != child implies #[trigger] sprite_of(gd, n) == sprite_of(g0, n) by {}
            assert forall|n: u32| n != parent implies #[trigger] sprite_of(ge, n) == sprite_of(gd, n) by {}
            lemma_attach_links(g0, gd, ge, self.runtime.graphics, parent, child, children, st);
        }
        index
    }
}

/// What `ensure_node_children_array` keeps: every other node and array.
proof fn lemma_children_array_kept(gd: BackendGraphicsState, ge: BackendGraphicsState, parent: u32, a: u32)
    requires
        ({
            let existing = children_of(gd, parent);
            if existing != 0 {
                &&& a == existing
                &&& ge.synthetic_arrays@.dom() == gd.synthetic_arrays@.dom().insert(a)
                &&& ge.synthetic_arrays@[a].items@ == arr_items(gd, a)
                &&& forall|k: u32|
                    k != a && #[trigger] gd.synthetic_arrays@.contains_key(k) ==> ge.synthetic_arrays@[k]
                        == gd.synthetic_arrays@[k]
                &&& ge.synthetic_sprites == gd.synthetic_sprites
            } else {
                &&& a == gd.synthetic_ui_object_cursor
                &&& ge.synthetic_arrays@.dom() == gd.synthetic_arrays@.dom().insert(a)
                &&& arr_items(ge, a) == arr_items(gd, a)
                &&& forall|k: u32|
                    k != a && #[trigger] gd.synthetic_arrays@.contains_key(k) ==> ge.synthetic_arrays@[k]
                        == gd.synthetic_arrays@[k]
                &&& ge.synthetic_sprites@ == gd.synthetic_sprites@.insert(
                    parent,
                    SyntheticSpriteState { children: a, ..sprite_of(gd, parent) },
                )
            }
        }),
    ensures
        children_of(ge, parent) == a,
        a == (if children_of(gd, parent) != 0 {
            children_of(gd, parent)
        } else {
            gd.synthetic_ui_object_cursor
        }),
        arr_items(ge, a) == arr_items(gd, a),
        sprite_of(ge, parent) == (SyntheticSpriteState { children: a, ..sprite_of(gd, parent) }),
        forall|k: u32|
            k != a && #[trigger] gd.synthetic_arrays@.contains_key(k) ==> ge.synthetic_arrays@.contains_key(k)
                && ge.synthetic_arrays@[k] == gd.synthetic_arrays@[k],
        forall|k: u32| #[trigger] ge.synthetic_arrays@.contains_key(k) ==> gd.synthetic_arrays@.contains_key(k) || k == a,
        forall|n: u32|
            n != parent ==> (#[trigger] ge.synthetic_sprites@.contains_key(n) == gd.synthetic_sprites@.contains_key(n)
                && sprite_of(ge, n) == sprite_of(gd, n)),
        forall|n: u32|
            n != parent && #[trigger] gd.synthetic_sprites@.contains_key(n) ==> ge.synthetic_sprites@[n]
                == gd.synthetic_sprites@[n],
{
    if children_of(gd, parent) != 0 {
        assert(ge.synthetic_sprites@ == gd.synthetic_sprites@);
    }
}

/// The three steps of an attach add up to `attach_effect`.
#[verifier::rlimit(100)]
#[verifier::spinoff_prover]
proof fn lemma_attach_compose(
    g0: BackendGraphicsState,
    gd: BackendGraphicsState,
    ge: BackendGraphicsState,
    g1: BackendGraphicsState,
    parent: u32,
    child: u32,
    a: u32,
    z: i32,
    tag: Option<u32>,
    index: int,
)
    requires
        parent != child,
        gd.synthetic_ui_object_cursor == g0.synthetic_ui_object_cursor,
        forall|n: u32|
            n != child ==> (#[trigger] gd.synthetic_sprites@.contains_key(n) == g0.synthetic_sprites@.contains_key(n)
                && sprite_of(gd, n) == sprite_of(g0, n)),
        forall|n: u32|
            n != child && #[trigger] g0.synthetic_sprites@.contains_key(n) ==> gd.synthetic_sprites@[n]
                == g0.synthetic_sprites@[n],
        sprite_of(gd, child) == (SyntheticSpriteState {
            parent: if leaves_old_parent(g0, parent, child) {
                0
            } else {
                parent_of(g0, child)
            },
            ..sprite_of(g0, child)
        }),
        arr_items(gd, target_array(g0, parent)) == items_before_insert(g0, parent, child),
        leaves_old_parent(g0, parent, child) && old_children(g0, child) != 0 ==> arr_items(gd, old_children(g0, child))
            == remove_first(arr_items(g0, old_children(g0, child)), child),
        forall|k: u32|
            (k != old_children(g0, child) || !leaves_old_parent(g0, parent, child))
                && #[trigger] g0.synthetic_arrays@.contains_key(k) ==> gd.synthetic_arrays@.contains_key(k)
                && gd.synthetic_arrays@[k] == g0.synthetic_arrays@[k],
        children_of(ge, parent) == a,
        a == (if children_of(gd, parent) != 0 {
            children_of(gd, parent)
        } else {
            gd.synthetic_ui_object_cursor
        }),
        arr_items(ge, a) == arr_items(gd, a),
        sprite_of(ge, parent) == (SyntheticSpriteState { children: a, ..sprite_of(gd, parent) }),
        forall|k: u32|
            k != a && #[trigger] gd.synthetic_arrays@.contains_key(k) ==> ge.synthetic_arrays@.contains_key(k)
                && ge.synthetic_arrays@[k] == gd.synthetic_arrays@[k],
        forall|k: u32| #[trigger] ge.synthetic_arrays@.contains_key(k) ==> gd.synthetic_arrays@.contains_key(k) || k == a,
        forall|n: u32|
            n != parent ==> (#[trigger] ge.synthetic_sprites@.contains_key(n) == gd.synthetic_sprites@.contains_key(n)
                && sprite_of(ge, n) == sprite_of(gd, n)),
        forall|n: u32|
            n != parent && #[trigger] gd.synthetic_sprites@.contains_key(n) ==> ge.synthetic_sprites@[n]
                == gd.synthetic_sprites@[n],
        ({
            let items = arr_items(ge, a);
            let at = insert_index_in(ge, a, items, child, z);
            let rest = remove_first(items, child);
            &&& index == (if at < rest.len() {
                at
            } else {
                rest.len() as int
            })
            &&& arr_items(g1, a) == rest.insert(index, child)
            &&& children_of(g1, parent) == a
            &&& sprite_of(g1, child) == (SyntheticSpriteState {
                parent,
                z_order: z,
                tag: match tag {
                    Some(t) => t,
                    None => sprite_of(ge, child).tag,
                },
                ..sprite_of(ge, child)
            })
            &&& forall|k: u32|
                k != a && #[trigger] ge.synthetic_arrays@.contains_key(k) ==> g1.synthetic_arrays@.contains_key(k)
                    && g1.synthetic_arrays@[k] == ge.synthetic_arrays@[k]
            &&& forall|k: u32| #[trigger] g1.synthetic_arrays@.contains_key(k) ==> ge.synthetic_arrays@.contains_key(k) || k == a
            &&& g1.synthetic_sprites@ == ge.synthetic_sprites@.insert(
                child,
                SyntheticSpriteState {
                    parent,
                    z_order: z,
                    tag: match tag {
                        Some(t) => t,
                        None => sprite_of(ge, child).tag,
                    },
                    ..sprite_of(ge, child)
                },
            )
        }),
    ensures
        attach_effect(g0, g1, parent, child, z, tag, index),
{
    assert(sprite_of(gd, parent) == sprite_of(g0, parent));
    assert(a == target_array(g0, parent));
    assert(sprite_of(ge, child) == sprite_of(gd, child));
    lemma_attach_z(g0, gd, ge, parent, child, a);
    lemma_first_above_same(g0, ge, arr_items(ge, a), child, z);
    assert(index == attach_index(g0, parent, child, z));
    lemma_attach_sprites(g0, gd, ge, g1, parent, child);
    lemma_attach_arrays(g0, gd, ge, g1, parent, child, a);
}

/// Only the child's z order can differ between `g0` and `ge`.
proof fn lemma_attach_z(g0: BackendGraphicsState, gd: BackendGraphicsState, ge: BackendGraphicsState, parent: u32, child: u32, a: u32)
    requires
        parent != child,
        forall|n: u32|
            n != child ==> (#[trigger] gd.synthetic_sprites@.contains_key(n) == g0.synthetic_sprites@.contains_key(n)
                && sprite_of(gd, n) == sprite_of(g0, n)),
        forall|n: u32|
            n != parent ==> (#[trigger] ge.synthetic_sprites@.contains_key(n) == gd.synthetic_sprites@.contains_key(n)
                && sprite_of(ge, n) == sprite_of(gd, n)),
        sprite_of(ge, parent) == (SyntheticSpriteState { children: a, ..sprite_of(gd, parent) }),
    ensures
        forall|n: u32| n != child ==> #[trigger] z_of(ge, n) == z_of(g0, n),
{
    assert forall|n: u32| n != child implies #[trigger] z_of(ge, n) == z_of(g0, n) by {
        if n != parent {
            assert(sprite_of(ge, n) == sprite_of(gd, n));
        }
        assert(sprite_of(gd, n) == sprite_of(g0, n));
    }
}

/// Nodes other than the parent and the child keep their state.
proof fn lemma_attach_sprites(
    g0: BackendGraphicsState,
    gd: BackendGraphicsState,
    ge: BackendGraphicsState,
    g1: BackendGraphicsState,
    parent: u32,
    child: u32,
)
    requires
        forall|n: u32|
            n != child ==> (#[trigger] gd.synthetic_sprites@.contains_key(n) == g0.synthetic_sprites@.contains_key(n)
                && sprite_of(gd, n) == sprite_of(g0, n)),
        forall|n: u32|
            n != child && #[trigger] g0.synthetic_sprites@.contains_key(n) ==> gd.synthetic_sprites@[n]
                == g0.synthetic_sprites@[n],
        forall|n: u32|
            n != parent ==> (#[trigger] ge.synthetic_sprites@.contains_key(n) == gd.synthetic_sprites@.contains_key(n)
                && sprite_of(ge, n) == sprite_of(gd, n)),
        forall|n: u32|
            n != parent && #[trigger] gd.synthetic_sprites@.contains_key(n) ==> ge.synthetic_sprites@[n]
                == gd.synthetic_sprites@[n],
        exists|st: SyntheticSpriteState| g1.synthetic_sprites@ == ge.synthetic_sprites@.insert(child, st),
    ensures
        forall|n: u32|
            n != parent && n != child && #[trigger] g0.synthetic_sprites@.contains_key(n) ==> g1.synthetic_sprites@.contains_key(
                n,
            ) && g1.synthetic_sprites@[n] == g0.synthetic_sprites@[n],
{
    assert forall|n: u32|
        n != parent && n != child && #[trigger] g0.synthetic_sprites@.contains_key(n) implies g1.synthetic_sprites@.contains_key(
            n,
        ) && g1.synthetic_sprites@[n] == g0.synthetic_sprites@[n] by {
        assert(gd.synthetic_sprites@.contains_key(n));
        assert(gd.synthetic_sprites@[n] == g0.synthetic_sprites@[n]);
        assert(ge.synthetic_sprites@[n] == gd.synthetic_sprites@[n]);
    }
}

/// The arrays other than the parent's: the old parent's loses the child,
/// the rest stay.
#[verifier::rlimit(50)]
proof fn lemma_attach_arrays(
    g0: BackendGraphicsState,
    gd: BackendGraphicsState,
    ge: BackendGraphicsState,
    g1: BackendGraphicsState,
    parent: u32,
    child: u32,
    a: u32,
)
    requires
        leaves_old_parent(g0, parent, child) && old_children(g0, child) != 0 ==> arr_items(gd, old_children(g0, child))
            == remove_first(arr_items(g0, old_children(g0, child)), child),
        forall|k: u32|
            (k != old_children(g0, child) || !leaves_old_parent(g0, parent, child))
                && #[trigger] g0.synthetic_arrays@.contains_key(k) ==> gd.synthetic_arrays@.contains_key(k)
                && gd.synthetic_arrays@[k] == g0.synthetic_arrays@[k],
        forall|k: u32|
            k != a && #[trigger] gd.synthetic_arrays@.contains_key(k) ==> ge.synthetic_arrays@.contains_key(k)
                && ge.synthetic_arrays@[k] == gd.synthetic_arrays@[k],
        forall|k: u32| #[trigger] ge.synthetic_arrays@.contains_key(k) ==> gd.synthetic_arrays@.contains_key(k) || k == a,
        forall|k: u32|
            k != a && #[trigger] ge.synthetic_arrays@.contains_key(k) ==> g1.synthetic_arrays@.contains_key(k)
                && g1.synthetic_arrays@[k] == ge.synthetic_arrays@[k],
        forall|k: u32| #[trigger] g1.synthetic_arrays@.contains_key(k) ==> ge.synthetic_arrays@.contains_key(k) || k == a,
    ensures
        ({
            let oc = old_children(g0, child);
            &&& (leaves_old_parent(g0, parent, child) && oc != 0 && oc != a ==> arr_items(g1, oc) == remove_first(
                arr_items(g0, oc),
                child,
            ))
            &&& forall|k: u32|
                k != a && (k != oc || !leaves_old_parent(g0, parent, child)) && #[trigger] g0.synthetic_arrays@.contains_key(
                    k,
                ) ==> g1.synthetic_arrays@.contains_key(k) && g1.synthetic_arrays@[k] == g0.synthetic_arrays@[k]
        }),
{
    let oc = old_children(g0, child);
    assert forall|k: u32|
        k != a && (k != oc || !leaves_old_parent(g0, parent, child)) && #[trigger] g0.synthetic_arrays@.contains_key(k)
            implies g1.synthetic_arrays@.contains_key(k) && g1.synthetic_arrays@[k] == g0.synthetic_arrays@[k] by {
        assert(gd.synthetic_arrays@.contains_key(k));
        assert(ge.synthetic_arrays@.contains_key(k));
    }
    if leaves_old_parent(g0, parent, child) && oc != 0 && oc != a {
        if gd.synthetic_arrays@.contains_key(oc) {
            assert(ge.synthetic_arrays@.contains_key(oc));
            assert(ge.synthetic_arrays@[oc] == gd.synthetic_arrays@[oc]);
            assert(g1.synthetic_arrays@.contains_key(oc));
            assert(g1.synthetic_arrays@[oc] == ge.synthetic_arrays@[oc]);
            assert(arr_items(g1, oc) == arr_items(gd, oc));
        } else {
            assert(!ge.synthetic_arrays@.contains_key(oc));
            assert(!g1.synthetic_arrays@.contains_key(oc));
            assert(arr_items(gd, oc) == Seq::<u32>::empty());
            if g1.synthetic_arrays@.contains_key(oc) {
            }
        }
    }
}

} // verus!
