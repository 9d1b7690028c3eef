//! The propagation pass: recomputes the world transform of every entity whose
//! own local transform, or that of one of its ancestors, changed since the
//! last pass, parents before children.
//!
//! The pass is generic over the world-transform value `G`. The caller hands it
//! `compose`, which from the parent's world transform (or `None` for a root)
//! and an entity computes the entity's world transform; the pass decides which
//! entities to recompute, in which order, and from which parent value.

use vstd::prelude::*;

use crate::hierarchy::{Entity, Hierarchy};

verus! {

/// The world transform of `x`'s parent in `globals`, or `None` for a root.
pub open spec fn parent_global<G>(h: Hierarchy, globals: Seq<G>, x: int) -> Option<G> {
    match h.parent_of(x) {
        None => None,
        Some(p) => Some(globals[p.index as int]),
    }
}

/// `globals[x]` is what `compose` gives for `x` from its parent's value.
pub open spec fn consistent_at<G, F: Fn(Option<G>, Entity) -> G>(
    h: Hierarchy,
    globals: Seq<G>,
    compose: F,
    x: int,
) -> bool {
    compose.ensures((parent_global(h, globals, x), Entity { index: x as usize }), globals[x])
}

/// One pass took `(h0, g0)` to `(h1, g1)`: the relation is kept, every change
/// flag is cleared, each out-of-date entity got its value from `compose` and
/// its parent's new value, and every other entity kept its value.
pub open spec fn propagated<G, F: Fn(Option<G>, Entity) -> G>(
    h0: Hierarchy,
    g0: Seq<G>,
    h1: Hierarchy,
    g1: Seq<G>,
    compose: F,
) -> bool {
    &&& h1.wf()
    &&& h1.same_relation(&h0)
    &&& g1.len() == g0.len()
    &&& g1.len() == h0.spec_len()
    &&& forall|x: int| 0 <= x < h1.spec_len() ==> !#[trigger] h1.changed_at(x)
    &&& forall|x: int|
        0 <= x < h0.spec_len() ==> if #[trigger] h0.needs_refresh(x) {
            consistent_at(h0, g1, compose, x)
        } else {
            g1[x] == g0[x]
        }
}

/// Runs one propagation pass over `hierarchy`, writing world transforms into
/// `globals` (indexed by entity) and clearing the change flags.
pub fn propagate_transforms<G: Copy, F: Fn(Option<G>, Entity) -> G>(
    hierarchy: &mut Hierarchy,
    globals: &mut Vec<G>,
    compose: F,
)
    requires
        old(hierarchy).wf(),
        old(globals)@.len() == old(hierarchy).spec_len(),
        forall|p: Option<G>, e: Entity| #[trigger] compose.requires((p, e)),
    ensures
        propagated(*old(hierarchy), old(globals)@, *final(hierarchy), final(globals)@, compose),
{
    let ghost h = *hierarchy;
    let ghost g0 = globals@;
    let order = hierarchy.topological_order();
    let n = hierarchy.len();
    let mut refresh: Vec<bool> = Vec::new();
    let mut i: usize = 0;
    while i < n
        invariant
            i <= n,
            refresh@.len() == i,
        decreases n - i,
    {
        refresh.push(false);
        i += 1;
    }
    let ghost mut done: Set<int> = Set::empty();
    let mut k: usize = 0;
    while k < order.len()
        invariant
            *hierarchy == h,
            h.wf(),
            n == h.spec_len(),
            h.is_topological_order(order@),
            refresh@.len() == n,
            globals@.len() == n,
            g0.len() == n,
            k <= order@.len(),
            forall|p: Option<G>, e: Entity| #[trigger] compose.requires((p, e)),
            forall|j: int|
                0 <= j < order@.len() ==> (done.contains((#[trigger] order@[j]).index as int) <==> j < k),
            forall|x: int| #[trigger] done.contains(x) ==> 0 <= x < n,
            forall|x: int| #[trigger] done.contains(x) ==> refresh@[x] == h.needs_refresh(x),
            forall|x: int|
                #[trigger] done.contains(x) && h.parent_of(x) is Some ==> done.contains(
                    h.parent_of(x)->0.index as int,
                ),
            forall|x: int|
                #[trigger] done.contains(x) ==> if h.needs_refresh(x) {
                    consistent_at(h, globals@, compose, x)
                } else {
                    globals@[x] == g0[x]
                },
            forall|x: int| 0 <= x < n && !(#[trigger] done.contains(x)) ==> globals@[x] == g0[x],
        decreases order@.len() - k,
    {
        let e = order[k];
        let x = e.index;
        let parent = hierarchy.parent(e);
        proof {
            h.lemma_parent_ranks_below(x as int);
            assert(!done.contains(x as int));
            if let Some(p) = parent {
                assert(order@.contains(Entity { index: (p.index as int) as usize }));
                let j = choose|j: int| 0 <= j < order@.len() && order@[j] == p;
                if j >= k {
                    assert(j != k);
                    assert(h.parent_of(order@[k as int].index as int) != Some(order@[j]));
                }
                assert(done.contains(p.index as int));
            }
        }
        let r = match parent {
            None => hierarchy.is_changed(e),
            Some(p) => hierarchy.is_changed(e) || refresh[p.index],
        };
        refresh.set(x, r);
        if r {
            let pg = match parent {
                None => None,
                Some(p) => Some(globals[p.index]),
            };
            let g = compose(pg, e);
            let ghost before = globals@;
            globals.set(x, g);
            proof {
                assert(pg == parent_global(h, globals@, x as int));
                assert forall|y: int| #[trigger] done.contains(y) implies if h.needs_refresh(y) {
                    consistent_at(h, globals@, compose, y)
                } else {
                    globals@[y] == g0[y]
                } by {
                    assert(globals@[y] == before[y]);
                    if let Some(q) = h.parent_of(y) {
                        assert(done.contains(q.index as int));
                        assert(globals@[q.index as int] == before[q.index as int]);
                    }
                    assert(parent_global(h, globals@, y) == parent_global(h, before, y));
                }
            }
        }
        proof {
            done = done.insert(x as int);
            assert forall|j: int|
                0 <= j < order@.len() implies (done.contains((#[trigger] order@[j]).index as int) <==> j < k + 1) by {
                if j == k {
                } else if order@[j].index == x {
                    assert(order@[j] == order@[k as int]);
                }
            }
        }
        k += 1;
    }
    proof {
        assert forall|x: int| 0 <= x < n implies #[trigger] done.contains(x) by {
            assert(order@.contains(Entity { index: x as usize }));
            let j = choose|j: int| 0 <= j < order@.len() && order@[j] == Entity { index: x as usize };
            assert(done.contains(order@[j].index as int));
        }
    }
    hierarchy.clear_changes();
    proof {
        assert forall|x: int| 0 <= x < h.spec_len() implies if #[trigger] h.needs_refresh(x) {
            consistent_at(h, globals@, compose, x)
        } else {
            globals@[x] == g0[x]
        } by {
            assert(done.contains(x));
        }
    }
}


/// Idempotence: a second pass run right after a first one, with nothing
/// changed in between, leaves every world transform as the first pass left it.
pub proof fn lemma_second_pass_changes_nothing<G, F: Fn(Option<G>, Entity) -> G>(
    h0: Hierarchy,
    g0: Seq<G>,
    h1: Hierarchy,
    g1: Seq<G>,
    h2: Hierarchy,
    g2: Seq<G>,
    compose: F,
)
    requires
        propagated(h0, g0, h1, g1, compose),
        propagated(h1, g1, h2, g2, compose),
    ensures
        g2 == g1,
{
    assert(g2 =~= g1) by {
        assert forall|x: int| 0 <= x < g1.len() implies g2[x] == g1[x] by {
            h1.lemma_clean_needs_no_refresh(x);
        }
    }
}

/// After a pass every entity's world transform is what `compose` gives from
/// its parent's (or from none, for a root), provided every entity that was
/// up to date before the pass was so. A root thus holds exactly its own
/// transform promoted to world space.
pub proof fn lemma_pass_makes_all_consistent<G, F: Fn(Option<G>, Entity) -> G>(
    h0: Hierarchy,
    g0: Seq<G>,
    h1: Hierarchy,
    g1: Seq<G>,
    compose: F,
)
    requires
        h0.wf(),
        g0.len() == h0.spec_len(),
        propagated(h0, g0, h1, g1, compose),
        clean_entities_consistent(h0, g0, compose),
    ensures
        forall|x: int| 0 <= x < h1.spec_len() ==> #[trigger] consistent_at(h1, g1, compose, x),
{
    assert forall|x: int| 0 <= x < h1.spec_len() implies #[trigger] consistent_at(
        h1,
        g1,
        compose,
        x,
    ) by {
        h0.lemma_parent_ranks_below(x);
        assert(h1.parent_of(x) == h0.parent_of(x));
        if h0.needs_refresh(x) {
            assert(parent_global(h1, g1, x) == parent_global(h0, g1, x));
        } else {
            assert(consistent_at(h0, g0, compose, x));
            if let Some(p) = h0.parent_of(x) {
                assert(!h0.needs_refresh(p.index as int));
                assert(g1[p.index as int] == g0[p.index as int]);
            }
            assert(parent_global(h1, g1, x) == parent_global(h0, g0, x));
        }
    }
}

/// Descendants follow their ancestors: when the transform of `a` changed, a
/// pass recomputes every entity below `a` from its parent's new value, whether
/// or not its own transform changed.
pub proof fn lemma_descendants_follow_changed_ancestor<G, F: Fn(Option<G>, Entity) -> G>(
    h0: Hierarchy,
    g0: Seq<G>,
    h1: Hierarchy,
    g1: Seq<G>,
    compose: F,
    a: int,
    x: int,
)
    requires
        h0.wf(),
        propagated(h0, g0, h1, g1, compose),
        0 <= a < h0.spec_len(),
        h0.changed_at(a),
        h0.is_ancestor_or_self(a, x),
    ensures
        consistent_at(h1, g1, compose, x),
{
    h0.lemma_changed_ancestor_refreshes(a, x);
    assert(h1.parent_of(x) == h0.parent_of(x));
    assert(parent_global(h1, g1, x) == parent_global(h0, g1, x));
}


/// Every entity that is up to date holds the value `compose` gives it: the
/// invariant that a pass restores for all entities.
pub open spec fn clean_entities_consistent<G, F: Fn(Option<G>, Entity) -> G>(
    h: Hierarchy,
    globals: Seq<G>,
    compose: F,
) -> bool {
    forall|x: int|
        0 <= x < h.spec_len() && !h.needs_refresh(x) ==> #[trigger] consistent_at(
            h,
            globals,
            compose,
            x,
        )
}

/// An entity up to date in `h1` was already an entity of `h0`, up to date
/// there, with the same parent, when `h1` marks changed every entity that is
/// new, that was changed, or whose parent differs.
proof fn lemma_clean_after_edit_was_clean(h0: Hierarchy, h1: Hierarchy, x: int)
    requires
        h0.wf(),
        h1.wf(),
        h0.spec_len() <= h1.spec_len(),
        forall|y: int|
            0 <= y < h0.spec_len() && h1.parent_of(y) != h0.parent_of(y) ==> #[trigger] h1.changed_at(y),
        forall|y: int| 0 <= y < h0.spec_len() && h0.changed_at(y) ==> #[trigger] h1.changed_at(y),
        forall|y: int| h0.spec_len() <= y < h1.spec_len() ==> #[trigger] h1.changed_at(y),
        0 <= x < h1.spec_len(),
        !h1.needs_refresh(x),
    ensures
        x < h0.spec_len(),
        !h0.needs_refresh(x),
        h1.parent_of(x) == h0.parent_of(x),
    decreases h1.rank_of(x),
{
    h1.lemma_parent_ranks_below(x);
    assert(!h1.changed_at(x));
    if let Some(p) = h1.parent_of(x) {
        lemma_clean_after_edit_was_clean(h0, h1, p.index as int);
    }
    h0.lemma_parent_ranks_below(x);
}

/// Spawning entities, editing the relation and marking transforms changed
/// keep every up-to-date entity at its composed value, as long as every new
/// entity, every entity whose parent changed and every entity already marked
/// stays marked. `spawn`, `set_parent`, `remove_parent`, `detach` and
/// `mark_changed` all do so. Starting from an empty hierarchy, this and
/// `lemma_pass_makes_all_consistent` make a root's world transform its own
/// transform promoted, after every pass.
pub proof fn lemma_edit_keeps_clean_entities_consistent<G, F: Fn(Option<G>, Entity) -> G>(
    h0: Hierarchy,
    h1: Hierarchy,
    globals: Seq<G>,
    compose: F,
)
    requires
        h0.wf(),
        h1.wf(),
        h0.spec_len() <= h1.spec_len(),
        forall|y: int|
            0 <= y < h0.spec_len() && h1.parent_of(y) != h0.parent_of(y) ==> #[trigger] h1.changed_at(y),
        forall|y: int| 0 <= y < h0.spec_len() && h0.changed_at(y) ==> #[trigger] h1.changed_at(y),
        forall|y: int| h0.spec_len() <= y < h1.spec_len() ==> #[trigger] h1.changed_at(y),
        clean_entities_consistent(h0, globals, compose),
    ensures
        clean_entities_consistent(h1, globals, compose),
{
    assert forall|x: int| 0 <= x < h1.spec_len() && !h1.needs_refresh(x) implies #[trigger] consistent_at(
        h1,
        globals,
        compose,
        x,
    ) by {
        lemma_clean_after_edit_was_clean(h0, h1, x);
        assert(consistent_at(h0, globals, compose, x));
        assert(parent_global(h1, globals, x) == parent_global(h0, globals, x));
    }
}

} // verus!
