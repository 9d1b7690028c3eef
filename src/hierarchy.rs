//! The parent/children relation between entities, held in an arena indexed
//! by entity, with per-entity change flags for the local transform.
//!
//! The relation is kept consistent in both directions (an entity names `p` as
//! its parent exactly when `p`'s children list it) and acyclic: every entity
//! carries a ghost rank that strictly grows from parent to child.

use vstd::prelude::*;
use vstd::set_lib::{lemma_int_range, lemma_len_subset, set_int_range};

use crate::error::AnvilKitError;

verus! {

/// Identifier of an entity: its slot in a [`Hierarchy`].
#[derive(Debug, Clone, Copy, PartialEq, Eq, Hash, Structural)]
pub struct Entity {
    pub index: usize,
}

impl Entity {
    pub fn from_index(index: usize) -> (r: Entity)
        ensures
            r.index == index,
    {
        Entity { index }
    }

    pub fn index(&self) -> (r: usize)
        ensures
            r == self.index,
    {
        self.index
    }
}

/// The parent of an entity, as held by the child.
#[derive(Debug, Clone, Copy, PartialEq, Eq, Structural)]
pub struct Parent(pub Entity);

impl Parent {
    pub fn new(entity: Entity) -> (r: Parent)
        ensures
            r.0 == entity,
    {
        Parent(entity)
    }

    pub fn get(&self) -> (r: Entity)
        ensures
            r == self.0,
    {
        self.0
    }

    pub fn set(&mut self, entity: Entity)
        ensures
            final(self).0 == entity,
    {
        self.0 = entity;
    }
}

/// `s` with every repeated element after its first occurrence left out.
pub open spec fn dedup(s: Seq<Entity>) -> Seq<Entity>
    decreases s.len(),
{
    if s.len() == 0 {
        Seq::empty()
    } else {
        let d = dedup(s.drop_last());
        if d.contains(s.last()) {
            d
        } else {
            d.push(s.last())
        }
    }
}

/// The children of an entity, in insertion order and without duplicates.
#[derive(Debug, Clone)]
pub struct Children {
    children: Vec<Entity>,
}

impl View for Children {
    type V = Seq<Entity>;

    closed spec fn view(&self) -> Seq<Entity> {
        self.children@
    }
}

impl Children {
    /// No entity is listed twice.
    pub open spec fn wf(&self) -> bool {
        self@.no_duplicates()
    }

    /// The children in `children`, each kept at its first occurrence.
    pub fn new(children: Vec<Entity>) -> (r: Children)
        ensures
            r@ == dedup(children@),
            r.wf(),
    {
        let mut out: Vec<Entity> = Vec::new();
        let mut i: usize = 0;
        while i < children.len()
            invariant
                i <= children@.len(),
                out@ == dedup(children@.subrange(0, i as int)),
                out@.no_duplicates(),
            decreases children@.len() - i,
        {
            let e = children[i];
            proof {
                let s = children@.subrange(0, i as int + 1);
                assert(s.drop_last() =~= children@.subrange(0, i as int));
                assert(s.last() == e);
            }
            if !seq_contains(&out, e) {
                out.push(e);
            }
            i += 1;
        }
        proof {
            assert(children@.subrange(0, children@.len() as int) =~= children@);
        }
        Children { children: out }
    }

    pub fn empty() -> (r: Children)
        ensures
            r@ == Seq::<Entity>::empty(),
            r.wf(),
    {
        Children { children: Vec::new() }
    }

    /// The children as a slice, in insertion order.
    pub fn as_slice(&self) -> (r: &[Entity])
        ensures
            r@ == self@,
    {
        self.children.as_slice()
    }

    /// The children in insertion order.
    pub fn iter(&self) -> (r: std::slice::Iter<'_, Entity>)
        ensures
            vstd::std_specs::iter::IteratorSpec::remaining(&r).unref() == self@,
    {
        let r = self.children.as_slice().iter();
        proof {
            assert(vstd::std_specs::iter::IteratorSpec::remaining(&r).unref() =~= self@);
        }
        r
    }

    pub fn len(&self) -> (r: usize)
        ensures
            r == self@.len(),
    {
        self.children.len()
    }

    pub fn is_empty(&self) -> (r: bool)
        ensures
            r == (self@.len() == 0),
    {
        self.children.len() == 0
    }

    /// Appends `entity` unless it is already a child.
    pub fn push(&mut self, entity: Entity)
        requires
            old(self).wf(),
        ensures
            final(self).wf(),
            old(self)@.contains(entity) ==> final(self)@ == old(self)@,
            !old(self)@.contains(entity) ==> final(self)@ == old(self)@.push(entity),
    {
        if !seq_contains(&self.children, entity) {
            self.children.push(entity);
        }
    }

    /// Removes `entity` if it is a child, keeping the order of the others.
    pub fn remove(&mut self, entity: Entity)
        requires
            old(self).wf(),
        ensures
            final(self).wf(),
            !old(self)@.contains(entity) ==> final(self)@ == old(self)@,
            old(self)@.contains(entity) ==> exists|i: int|
                0 <= i < old(self)@.len() && old(self)@[i] == entity && final(self)@ == old(self)@.remove(i),
            forall|x: Entity| #[trigger]
                final(self)@.contains(x) <==> (old(self)@.contains(x) && x != entity),
    {
        let mut i: usize = 0;
        while i < self.children.len()
            invariant
                i <= self.children@.len(),
                self.children@ == old(self).children@,
                self.children@.no_duplicates(),
                forall|j: int| 0 <= j < i ==> self.children@[j] != entity,
            decreases self.children@.len() - i,
        {
            if self.children[i] == entity {
                let ghost before = self.children@;
                self.children.remove(i);
                proof {
                    let after = self.children@;
                    assert(before.no_duplicates());
                    assert(before[i as int] == entity);
                    assert(after =~= before.remove(i as int));
                    assert forall|k: int| 0 <= k < after.len() implies after[k] == (if k < i {
                        before[k]
                    } else {
                        before[k + 1]
                    }) by {}
                    assert forall|x: Entity| #[trigger]
                        after.contains(x) <==> (before.contains(x) && x != entity) by {
                        if after.contains(x) {
                            let k = choose|k: int| 0 <= k < after.len() && after[k] == x;
                            if k < i {
                                assert(before[k] == x);
                                assert(k != i);
                            } else {
                                assert(before[k + 1] == x);
                                assert(k + 1 != i);
                            }
                        }
                        if before.contains(x) && x != entity {
                            let k = choose|k: int| 0 <= k < before.len() && before[k] == x;
                            if k < i {
                                assert(after[k] == x);
                            } else {
                                assert(k != i);
                                assert(after[k - 1] == x);
                            }
                        }
                    }
                    assert(after.no_duplicates()) by {
                        assert forall|a: int, b: int|
                            0 <= a < after.len() && 0 <= b < after.len() && a != b implies after[a]
                            != after[b] by {
                            let a2 = if a < i { a } else { a + 1 };
                            let b2 = if b < i { b } else { b + 1 };
                            assert(before[a2] != before[b2]);
                        }
                    }
                }
                return;
            }
            i += 1;
        }
    }

    pub fn contains(&self, entity: Entity) -> (r: bool)
        ensures
            r == self@.contains(entity),
    {
        seq_contains(&self.children, entity)
    }

    pub fn clear(&mut self)
        ensures
            final(self)@ == Seq::<Entity>::empty(),
            final(self).wf(),
    {
        self.children.clear();
    }

    pub fn first(&self) -> (r: Option<Entity>)
        ensures
            self@.len() == 0 ==> r is None,
            self@.len() > 0 ==> r == Some(self@[0]),
    {
        if self.children.len() == 0 {
            None
        } else {
            Some(self.children[0])
        }
    }

    pub fn last(&self) -> (r: Option<Entity>)
        ensures
            self@.len() == 0 ==> r is None,
            self@.len() > 0 ==> r == Some(self@.last()),
    {
        let n = self.children.len();
        if n == 0 {
            None
        } else {
            Some(self.children[n - 1])
        }
    }
}

impl Default for Children {
    fn default() -> (r: Children)
        ensures
            r@ == Seq::<Entity>::empty(),
            r.wf(),
    {
        Children::empty()
    }
}

impl From<Vec<Entity>> for Children {
    fn from(children: Vec<Entity>) -> (r: Children)
        ensures
            r@ == dedup(children@),
    {
        Children::new(children)
    }
}

/// What `from` returns is stated on `from` itself; no spec-level equality is
/// claimed for it.
impl vstd::std_specs::convert::FromSpecImpl<Vec<Entity>> for Children {
    open spec fn obeys_from_spec() -> bool {
        false
    }

    open spec fn from_spec(v: Vec<Entity>) -> Children {
        choose|c: Children| c@ == dedup(v@)
    }
}

/// Whether `v` holds `e`.
fn seq_contains(v: &Vec<Entity>, e: Entity) -> (r: bool)
    ensures
        r == v@.contains(e),
{
    let mut i: usize = 0;
    while i < v.len()
        invariant
            i <= v@.len(),
            forall|j: int| 0 <= j < i ==> v@[j] != e,
        decreases v@.len() - i,
    {
        if v[i] == e {
            return true;
        }
        i += 1;
    }
    false
}


/// The relation between the entities of one scene, and for each entity
/// whether its local transform changed since the last propagation pass.
pub struct Hierarchy {
    parents: Vec<Option<Entity>>,
    children: Vec<Children>,
    changed: Vec<bool>,
    /// Strictly grows from parent to child; witnesses that there is no cycle.
    rank: Ghost<Seq<nat>>,
    /// Exceeds every rank, so that walking down from parent to child ends.
    rank_bound: Ghost<nat>,
}

impl Hierarchy {
    /// Number of entities.
    pub closed spec fn spec_len(&self) -> nat {
        self.parents@.len()
    }

    /// The parent of entity `x`, if it has one.
    pub closed spec fn parent_of(&self, x: int) -> Option<Entity> {
        self.parents@[x]
    }

    /// The children of entity `x`, in insertion order.
    pub closed spec fn children_of(&self, x: int) -> Seq<Entity> {
        self.children@[x]@
    }

    /// Whether the local transform of `x` changed since the last pass.
    pub closed spec fn changed_at(&self, x: int) -> bool {
        self.changed@[x]
    }

    /// Position of `x` in an order in which every parent precedes its children.
    pub closed spec fn rank_of(&self, x: int) -> nat {
        self.rank@[x]
    }

    /// Exceeds the rank of every entity.
    pub closed spec fn rank_bound(&self) -> nat {
        self.rank_bound@
    }

    pub closed spec fn wf(&self) -> bool {
        let n = self.parents@.len();
        &&& n <= usize::MAX
        &&& self.rank_bound@ > 0
        &&& forall|x: int| 0 <= x < n ==> #[trigger] self.rank@[x] < self.rank_bound@
        &&& self.children@.len() == n
        &&& self.changed@.len() == n
        &&& self.rank@.len() == n
        &&& forall|x: int| 0 <= x < n ==> (#[trigger] self.children@[x]).wf()
        &&& forall|x: int|
            0 <= x < n && (#[trigger] self.parents@[x]) is Some ==> {
                let p = self.parents@[x]->0.index as int;
                &&& 0 <= p < n
                &&& self.rank@[p] < self.rank@[x]
                &&& self.children@[p]@.contains(Entity { index: x as usize })
            }
        &&& forall|p: int, k: int|
            0 <= p < n && 0 <= k < self.children@[p]@.len() ==> {
                let c = (#[trigger] self.children@[p]@[k]).index as int;
                &&& 0 <= c < n
                &&& self.parents@[c] == Some(Entity { index: p as usize })
            }
    }

    /// Whether `a` is `x` or one of its ancestors.
    pub open spec fn is_ancestor_or_self(&self, a: int, x: int) -> bool
        decreases self.rank_of(x),
    {
        if !(0 <= x < self.spec_len()) {
            false
        } else if x == a {
            true
        } else {
            match self.parent_of(x) {
                None => false,
                Some(p) => {
                    let q = p.index as int;
                    if 0 <= q < self.spec_len() && self.rank_of(q) < self.rank_of(x) {
                        self.is_ancestor_or_self(a, q)
                    } else {
                        false
                    }
                },
            }
        }
    }

    /// The ancestors of `x`, from its parent up to its root.
    pub open spec fn ancestors(&self, x: int) -> Seq<Entity>
        decreases self.rank_of(x),
    {
        if !(0 <= x < self.spec_len()) {
            Seq::empty()
        } else {
            match self.parent_of(x) {
                None => Seq::empty(),
                Some(p) => {
                    let q = p.index as int;
                    if 0 <= q < self.spec_len() && self.rank_of(q) < self.rank_of(x) {
                        seq![p] + self.ancestors(q)
                    } else {
                        Seq::empty()
                    }
                },
            }
        }
    }

    /// Whether the world transform of `x` is out of date: its own local
    /// transform or that of one of its ancestors changed.
    pub open spec fn needs_refresh(&self, x: int) -> bool
        decreases self.rank_of(x),
    {
        if !(0 <= x < self.spec_len()) {
            false
        } else if self.changed_at(x) {
            true
        } else {
            match self.parent_of(x) {
                None => false,
                Some(p) => {
                    let q = p.index as int;
                    if 0 <= q < self.spec_len() && self.rank_of(q) < self.rank_of(x) {
                        self.needs_refresh(q)
                    } else {
                        false
                    }
                },
            }
        }
    }

    /// In a well-formed hierarchy a parent is an entity of it and ranks
    /// below its child, so the definitions above always take their recursive
    /// branch.
    pub proof fn lemma_parent_ranks_below(&self, x: int)
        requires
            self.wf(),
            0 <= x < self.spec_len(),
        ensures
            self.parent_of(x) is Some ==> {
                let q = self.parent_of(x)->0.index as int;
                &&& 0 <= q < self.spec_len()
                &&& self.rank_of(q) < self.rank_of(x)
            },
    {
    }

    /// The two sides of the relation agree: `x` names `p` as its parent
    /// exactly when `p` lists `x` among its children. A children list has no
    /// repeats, and each child is an entity that ranks above its parent.
    pub proof fn lemma_relation(&self, x: int, p: int)
        requires
            self.wf(),
            0 <= x < self.spec_len(),
            0 <= p < self.spec_len(),
        ensures
            self.parent_of(x) == Some(Entity { index: p as usize }) <==> self.children_of(
                p,
            ).contains(Entity { index: x as usize }),
            self.children_of(p).no_duplicates(),
            self.rank_of(x) < self.rank_bound(),
            forall|k: int|
                0 <= k < self.children_of(p).len() ==> {
                    let c = (#[trigger] self.children_of(p)[k]).index as int;
                    &&& 0 <= c < self.spec_len()
                    &&& self.rank_of(p) < self.rank_of(c)
                    &&& self.rank_of(c) < self.rank_bound()
                },
    {
        assert(self.children@[p].wf());
        if self.children_of(p).contains(Entity { index: x as usize }) {
            let k = choose|k: int|
                0 <= k < self.children@[p]@.len() && self.children@[p]@[k] == Entity {
                    index: x as usize,
                };
            assert(self.children@[p]@[k] == Entity { index: x as usize });
        }
        assert forall|k: int| 0 <= k < self.children_of(p).len() implies {
            let c = (#[trigger] self.children_of(p)[k]).index as int;
            &&& 0 <= c < self.spec_len()
            &&& self.rank_of(p) < self.rank_of(c)
            &&& self.rank_of(c) < self.rank_bound()
        } by {
            let c = self.children@[p]@[k].index as int;
            assert(self.parents@[c] == Some(Entity { index: p as usize }));
        }
    }

    /// The strict descendants of `x` in pre-order: each child in list order,
    /// followed at once by that child's own descendants.
    pub open spec fn descendants_preorder(&self, x: int) -> Seq<Entity>
        decreases (self.rank_bound() - self.rank_of(x)) as nat, 1nat, 0nat,
    {
        if 0 <= x < self.spec_len() {
            self.subtrees_preorder(x, self.children_of(x))
        } else {
            Seq::empty()
        }
    }

    /// For children `cs` of `x`, each child followed by its descendants, in
    /// the order of `cs`.
    pub open spec fn subtrees_preorder(&self, x: int, cs: Seq<Entity>) -> Seq<Entity>
        decreases (self.rank_bound() - self.rank_of(x)) as nat, 0nat, cs.len(),
    {
        if cs.len() == 0 {
            Seq::empty()
        } else {
            let c = cs.last();
            let ci = c.index as int;
            let below = if 0 <= ci < self.spec_len() && self.rank_of(x) < self.rank_of(ci)
                && self.rank_of(ci) < self.rank_bound() {
                self.descendants_preorder(ci)
            } else {
                Seq::empty()
            };
            self.subtrees_preorder(x, cs.drop_last()) + seq![c] + below
        }
    }

    /// Same relation as `other`; change flags may differ.
    pub open spec fn same_relation(&self, other: &Hierarchy) -> bool {
        &&& self.spec_len() == other.spec_len()
        &&& forall|x: int|
            0 <= x < self.spec_len() ==> #[trigger] self.parent_of(x) == other.parent_of(x)
                && self.children_of(x) == other.children_of(x)
    }

    /// An empty hierarchy.
    pub fn new() -> (r: Hierarchy)
        ensures
            r.wf(),
            r.spec_len() == 0,
    {
        Hierarchy {
            parents: Vec::new(),
            children: Vec::new(),
            changed: Vec::new(),
            rank: Ghost(Seq::empty()),
            rank_bound: Ghost(1),
        }
    }

    /// Number of entities.
    pub fn len(&self) -> (r: usize)
        ensures
            r == self.spec_len(),
    {
        self.parents.len()
    }

    /// Adds a root entity with no children. Its local transform counts as
    /// changed, so the next pass computes its world transform.
    pub fn spawn(&mut self) -> (r: Entity)
        requires
            old(self).wf(),
            old(self).spec_len() < usize::MAX,
        ensures
            final(self).wf(),
            r.index == old(self).spec_len(),
            final(self).spec_len() == old(self).spec_len() + 1,
            final(self).parent_of(r.index as int) is None,
            final(self).children_of(r.index as int) == Seq::<Entity>::empty(),
            final(self).changed_at(r.index as int),
            forall|x: int|
                0 <= x < old(self).spec_len() ==> #[trigger] final(self).parent_of(x)
                    == old(self).parent_of(x) && final(self).children_of(x) == old(self).children_of(x) && final(self).changed_at(x) == old(self).changed_at(x),
    {
        let index = self.parents.len();
        self.parents.push(None);
        self.children.push(Children::empty());
        self.changed.push(true);
        self.rank = Ghost(self.rank@.push(0));
        let r = Entity { index };
        proof {
            let n = self.parents@.len();
            assert forall|p: int, k: int|
                0 <= p < n && 0 <= k < self.children@[p]@.len() implies {
                let c = (#[trigger] self.children@[p]@[k]).index as int;
                &&& 0 <= c < n
                &&& self.parents@[c] == Some(Entity { index: p as usize })
            } by {
                assert(p < index);
                assert(self.children@[p] == old(self).children@[p]);
            }
        }
        r
    }

    /// The parent of `entity`, if it has one.
    pub fn parent(&self, entity: Entity) -> (r: Option<Entity>)
        requires
            entity.index < self.spec_len(),
        ensures
            r == self.parent_of(entity.index as int),
    {
        self.parents[entity.index]
    }

    /// The children of `entity`.
    pub fn children(&self, entity: Entity) -> (r: &Children)
        requires
            self.wf(),
            entity.index < self.spec_len(),
        ensures
            r@ == self.children_of(entity.index as int),
            r.wf(),
    {
        &self.children[entity.index]
    }

    /// Whether the local transform of `entity` changed since the last pass.
    pub fn is_changed(&self, entity: Entity) -> (r: bool)
        requires
            self.wf(),
            entity.index < self.spec_len(),
        ensures
            r == self.changed_at(entity.index as int),
    {
        self.changed[entity.index]
    }

    /// Records that the local transform of `entity` was modified.
    pub fn mark_changed(&mut self, entity: Entity)
        requires
            old(self).wf(),
            entity.index < old(self).spec_len(),
        ensures
            final(self).wf(),
            final(self).same_relation(old(self)),
            forall|x: int|
                0 <= x < old(self).spec_len() ==> #[trigger] final(self).changed_at(x) == (x
                    == entity.index || old(self).changed_at(x)),
    {
        self.changed.set(entity.index, true);
    }

    /// Whether `a` is `x` itself or one of its ancestors.
    pub fn is_ancestor_or_self_of(&self, a: Entity, x: Entity) -> (r: bool)
        requires
            self.wf(),
            x.index < self.spec_len(),
        ensures
            r == self.is_ancestor_or_self(a.index as int, x.index as int),
    {
        let mut cur = x.index;
        loop
            invariant
                self.wf(),
                cur < self.spec_len(),
                self.is_ancestor_or_self(a.index as int, x.index as int)
                    == self.is_ancestor_or_self(a.index as int, cur as int),
            decreases self.rank_of(cur as int),
        {
            if cur == a.index {
                return true;
            }
            match self.parents[cur] {
                None => {
                    return false;
                },
                Some(p) => {
                    cur = p.index;
                },
            }
        }
    }

    /// Clears every change flag, at the end of a propagation pass.
    pub fn clear_changes(&mut self)
        requires
            old(self).wf(),
        ensures
            final(self).wf(),
            final(self).same_relation(old(self)),
            forall|x: int| 0 <= x < final(self).spec_len() ==> !#[trigger] final(self).changed_at(x),
    {
        let n = self.changed.len();
        let mut i: usize = 0;
        while i < n
            invariant
                n == self.changed@.len(),
                i <= n,
                self.parents == old(self).parents,
                self.children == old(self).children,
                self.rank == old(self).rank,
                self.rank_bound == old(self).rank_bound,
                self.changed@.len() == old(self).changed@.len(),
                forall|x: int| 0 <= x < i ==> !#[trigger] self.changed@[x],
            decreases n - i,
        {
            self.changed.set(i, false);
            i += 1;
        }
    }

    /// With no change flag set, no entity is out of date.
    pub proof fn lemma_clean_needs_no_refresh(&self, x: int)
        requires
            self.wf(),
            forall|y: int| 0 <= y < self.spec_len() ==> !#[trigger] self.changed_at(y),
        ensures
            !self.needs_refresh(x),
        decreases self.rank_of(x),
    {
        if 0 <= x < self.spec_len() {
            assert(!self.changed_at(x));
            if let Some(p) = self.parents@[x] {
                self.lemma_clean_needs_no_refresh(p.index as int);
            }
        }
    }

    /// An entity is out of date when the transform of one of its ancestors,
    /// or its own, changed.
    pub proof fn lemma_changed_ancestor_refreshes(&self, a: int, x: int)
        requires
            self.wf(),
            0 <= a < self.spec_len(),
            self.changed_at(a),
            self.is_ancestor_or_self(a, x),
        ensures
            0 <= x < self.spec_len(),
            self.needs_refresh(x),
        decreases self.rank_of(x),
    {
        if x != a {
            let p = self.parents@[x]->0.index as int;
            self.lemma_changed_ancestor_refreshes(a, p);
        }
    }

    /// Every entity exactly once, each after its parent.
    pub open spec fn is_topological_order(&self, order: Seq<Entity>) -> bool {
        &&& order.no_duplicates()
        &&& forall|k: int| 0 <= k < order.len() ==> (#[trigger] order[k]).index < self.spec_len()
        &&& forall|x: int|
            0 <= x < self.spec_len() ==> #[trigger] order.contains(Entity { index: x as usize })
        &&& forall|j: int, k: int|
            0 <= j < k < order.len() ==> self.parent_of(#[trigger] order[j].index as int) != Some(
                #[trigger] order[k],
            )
    }

    /// All entities, roots first and then level by level, so that every
    /// parent comes before its children.
    pub fn topological_order(&self) -> (r: Vec<Entity>)
        requires
            self.wf(),
        ensures
            self.is_topological_order(r@),
    {
        let n = self.parents.len();
        let mut seen: Vec<bool> = Vec::new();
        let mut order: Vec<Entity> = Vec::new();
        let mut x: usize = 0;
        while x < n
            invariant
                self.wf(),
                n == self.spec_len(),
                x <= n,
                seen@.len() == x,
                order@.len() <= x,
                order@.no_duplicates(),
                forall|j: int|
                    0 <= j < order@.len() ==> (#[trigger] order@[j]).index < x && seen@[order@[j].index as int],
                forall|y: int| 0 <= y < x && #[trigger] seen@[y] ==> order@.contains(Entity { index: y as usize }),
                forall|y: int| 0 <= y < x ==> (#[trigger] seen@[y] <==> self.parents@[y] is None),
                forall|j: int| 0 <= j < order@.len() ==> self.parents@[(#[trigger] order@[j]).index as int] is None,
            decreases n - x,
        {
            if self.parents[x].is_none() {
                proof {
                    assert(!order@.contains(Entity { index: x }));
                }
                let ghost old_order = order@;
                order.push(Entity { index: x });
                seen.push(true);
                proof {
                    assert(order@.last() == Entity { index: x });
                    assert forall|y: int| 0 <= y < x + 1 && #[trigger] seen@[y] implies order@.contains(Entity { index: y as usize }) by {
                        if y == x as int {
                            assert(order@[order@.len() - 1] == Entity { index: y as usize });
                        } else {
                            let j = choose|j: int| 0 <= j < old_order.len() && old_order[j] == Entity { index: y as usize };
                            assert(order@[j] == Entity { index: y as usize });
                        }
                    }
                }
            } else {
                seen.push(false);
            }
            x += 1;
        }
        let mut i: usize = 0;
        while i < order.len()
            invariant
                self.wf(),
                n == self.spec_len(),
                seen@.len() == n,
                i <= order@.len() <= n,
                order@.no_duplicates(),
                forall|j: int|
                    0 <= j < order@.len() ==> (#[trigger] order@[j]).index < n && seen@[order@[j].index as int],
                forall|y: int| 0 <= y < n && #[trigger] seen@[y] ==> order@.contains(Entity { index: y as usize }),
                forall|y: int| 0 <= y < n && self.parents@[y] is None ==> #[trigger] seen@[y],
                forall|j: int|
                    0 <= j < order@.len() && (#[trigger] order@[j]).index < n && self.parents@[order@[j].index as int] is Some
                        ==> seen@[self.parents@[order@[j].index as int]->0.index as int],
                forall|j: int, k: int|
                    0 <= j < k < order@.len() ==> self.parents@[(#[trigger] order@[j]).index as int] != Some(
                        #[trigger] order@[k],
                    ),
                forall|j: int, m: int|
                    0 <= j < i && 0 <= m < self.children@[order@[j].index as int]@.len() ==> #[trigger] seen@[
                        (#[trigger] self.children@[order@[j].index as int]@[m]).index as int],
            decreases n - i,
        {
            let e = order[i];
            let cs = &self.children[e.index];
            let mut k: usize = 0;
            while k < cs.children.len()
                invariant
                    self.wf(),
                    n == self.spec_len(),
                    cs == self.children@[e.index as int],
                    e == order@[i as int],
                    e.index < n,
                    seen@.len() == n,
                    i < order@.len() <= n,
                    k <= cs@.len(),
                    order@.no_duplicates(),
                    forall|j: int|
                        0 <= j < order@.len() ==> (#[trigger] order@[j]).index < n && seen@[order@[j].index as int],
                    forall|y: int| 0 <= y < n && #[trigger] seen@[y] ==> order@.contains(Entity { index: y as usize }),
                    forall|y: int| 0 <= y < n && self.parents@[y] is None ==> #[trigger] seen@[y],
                    forall|j: int|
                        0 <= j < order@.len() && (#[trigger] order@[j]).index < n && self.parents@[order@[j].index as int] is Some
                            ==> seen@[self.parents@[order@[j].index as int]->0.index as int],
                    forall|j: int, k2: int|
                        0 <= j < k2 < order@.len() ==> self.parents@[(#[trigger] order@[j]).index as int] != Some(
                            #[trigger] order@[k2],
                        ),
                    forall|j: int, m: int|
                        0 <= j < i && 0 <= m < self.children@[order@[j].index as int]@.len() ==> #[trigger] seen@[
                            (#[trigger] self.children@[order@[j].index as int]@[m]).index as int],
                    forall|m: int| 0 <= m < k ==> #[trigger] seen@[cs@[m].index as int],
                decreases cs@.len() - k,
            {
                let c = cs.children[k];
                proof {
                    assert(cs@[k as int] == c);
                    assert(self.parents@[c.index as int] == Some(Entity { index: e.index }));
                }
                if !seen[c.index] {
                    let ghost old_order = order@;
                    proof {
                        assert(!old_order.contains(c));
                        lemma_distinct_entities_bounded(old_order.push(c), n as nat);
                    }
                    order.push(c);
                    seen.set(c.index, true);
                    proof {
                        assert(order@[order@.len() - 1] == c);
                        assert forall|j: int, k2: int|
                            0 <= j < k2 < order@.len() implies self.parents@[(#[trigger] order@[j]).index as int] != Some(
                                #[trigger] order@[k2],
                            ) by {
                            if k2 == order@.len() - 1 {
                                assert(order@[j] == old_order[j]);
                                if self.parents@[order@[j].index as int] == Some(c) {
                                    assert(seen@[c.index as int]);
                                }
                            } else {
                                assert(order@[j] == old_order[j]);
                                assert(order@[k2] == old_order[k2]);
                            }
                        }
                        assert forall|y: int| 0 <= y < n && #[trigger] seen@[y] implies order@.contains(Entity { index: y as usize }) by {
                            if y == c.index as int {
                                assert(order@[order@.len() - 1] == Entity { index: y as usize });
                            } else {
                                let j = choose|j: int| 0 <= j < old_order.len() && old_order[j] == Entity { index: y as usize };
                                assert(order@[j] == Entity { index: y as usize });
                            }
                        }
                    }
                }
                k += 1;
            }
            i += 1;
        }
        proof {
            assert forall|y: int| 0 <= y < n implies #[trigger] order@.contains(Entity { index: y as usize }) by {
                lemma_all_reached(self, order@, seen@, y);
            }
            assert forall|j: int, k: int|
                0 <= j < k < order@.len() implies self.parent_of(#[trigger] order@[j].index as int) != Some(
                    #[trigger] order@[k],
                ) by {
                assert(self.parents@[order@[j].index as int] != Some(order@[k]));
            }
        }
        order
    }
}


/// Operations that edit or walk the relation as a whole.
pub struct TransformHierarchy;

impl TransformHierarchy {
    /// Makes `parent` the parent of `child`, updating both sides at once and
    /// marking `child` changed so that its world transform is recomputed.
    /// Fails, leaving the hierarchy as it was, where `child` is `parent` or one
    /// of its ancestors: the edit would close a cycle.
    pub fn set_parent(hierarchy: &mut Hierarchy, child: Entity, parent: Entity) -> (r: Result<
        (),
        AnvilKitError,
    >)
        requires
            old(hierarchy).wf(),
            child.index < old(hierarchy).spec_len(),
            parent.index < old(hierarchy).spec_len(),
        ensures
            final(hierarchy).wf(),
            r is Err <==> old(hierarchy).is_ancestor_or_self(child.index as int, parent.index as int),
            r is Err ==> r->Err_0 is Ecs && *final(hierarchy) == *old(hierarchy),
            r is Ok ==> {
                let h0 = *old(hierarchy);
                let h1 = *final(hierarchy);
                let prev = h0.parent_of(child.index as int);
                &&& h1.spec_len() == h0.spec_len()
                &&& h1.parent_of(child.index as int) == Some(parent)
                &&& h1.children_of(parent.index as int).contains(child)
                &&& h1.changed_at(child.index as int)
                &&& prev != Some(parent) ==> h1.children_of(parent.index as int)
                    == h0.children_of(parent.index as int).push(child)
                &&& prev == Some(parent) ==> h1.children_of(parent.index as int)
                    == h0.children_of(parent.index as int)
                &&& prev is Some && prev != Some(parent) ==> exists|i: int|
                    0 <= i < h0.children_of(prev->0.index as int).len() && h0.children_of(
                        prev->0.index as int,
                    )[i] == child && h1.children_of(prev->0.index as int) == h0.children_of(
                        prev->0.index as int,
                    ).remove(i)
                &&& prev is Some && prev != Some(parent) ==> forall|y: Entity|
                    #[trigger] h1.children_of(prev->0.index as int).contains(y) <==> (
                    h0.children_of(prev->0.index as int).contains(y) && y != child)
                &&& forall|x: int|
                    0 <= x < h0.spec_len() && x != child.index ==> #[trigger] h1.parent_of(x)
                        == h0.parent_of(x) && h1.changed_at(x) == h0.changed_at(x)
                &&& forall|x: int|
                    0 <= x < h0.spec_len() && x != parent.index && Some(Entity { index: x as usize })
                        != prev ==> #[trigger] h1.children_of(x) == h0.children_of(x)
            },
    {
        if hierarchy.is_ancestor_or_self_of(child, parent) {
            return Err(AnvilKitError::ecs("setting this parent would make the hierarchy cyclic"));
        }
        let ghost h0 = *hierarchy;
        let prev = hierarchy.parents[child.index];
        let ghost mut removed_at: int = 0;
        if prev == Some(parent) {
            proof {
                assert(h0.parents@[child.index as int] is Some);
                assert(h0.children@[parent.index as int]@.contains(
                    Entity { index: child.index as usize },
                ));
            }
            hierarchy.changed.set(child.index, true);
            return Ok(());
        }
        let ghost shift: nat = h0.rank@[parent.index as int] + 1;
        let ghost new_rank = Seq::new(
            h0.rank@.len(),
            |x: int|
                if h0.is_ancestor_or_self(child.index as int, x) {
                    h0.rank@[x] + shift
                } else {
                    h0.rank@[x]
                },
        );
        match prev {
            Some(p) => {
                proof {
                    assert(h0.children@[p.index as int].wf());
                }
                hierarchy.children[p.index].remove(child);
                proof {
                    let pl = h0.children@[p.index as int]@;
                    let i = choose|i: int|
                        0 <= i < pl.len() && pl[i] == child && hierarchy.children@[p.index as int]@
                            == pl.remove(i);
                    removed_at = i;
                }
            },
            None => {},
        }
        proof {
            assert(!hierarchy.children@[parent.index as int]@.contains(child)) by {
                if hierarchy.children@[parent.index as int]@.contains(child) {
                    let k = choose|k: int|
                        0 <= k < hierarchy.children@[parent.index as int]@.len()
                            && hierarchy.children@[parent.index as int]@[k] == child;
                    assert(h0.children@[parent.index as int]@[k] == child);
                }
            }
            assert(hierarchy.children@[parent.index as int].wf());
        }
        hierarchy.children[parent.index].push(child);
        hierarchy.parents.set(child.index, Some(parent));
        hierarchy.changed.set(child.index, true);
        hierarchy.rank = Ghost(new_rank);
        hierarchy.rank_bound = Ghost(2 * h0.rank_bound@);
        proof {
            let h1 = *hierarchy;
            let n = h0.parents@.len();
            let ci = child.index as int;
            let pi = parent.index as int;
            assert(h0.is_ancestor_or_self(ci, ci));
            assert forall|x: int| 0 <= x < n implies (#[trigger] h1.children@[x]).wf() by {
                assert(h0.children@[x].wf());
            }
            assert forall|x: int| 0 <= x < n && (#[trigger] h1.parents@[x]) is Some implies {
                let p = h1.parents@[x]->0.index as int;
                &&& 0 <= p < n
                &&& h1.rank@[p] < h1.rank@[x]
                &&& h1.children@[p]@.contains(Entity { index: x as usize })
            } by {
                if x != ci {
                    let q = h0.parents@[x]->0.index as int;
                    assert(h0.children@[q]@.contains(Entity { index: x as usize }));
                    if h0.is_ancestor_or_self(ci, q) {
                        assert(h0.is_ancestor_or_self(ci, x));
                    }
                    if prev is Some && q == prev->0.index as int {
                        assert(Entity { index: x as usize } != child);
                    }
                    if q == pi {
                        let k = choose|k: int|
                            0 <= k < h0.children@[q]@.len() && h0.children@[q]@[k] == Entity {
                                index: x as usize,
                            };
                        assert(h1.children@[q]@[k] == Entity { index: x as usize });
                    }
                } else {
                    assert(h1.children@[pi]@.last() == child);
                }
            }
            assert forall|p: int, k: int|
                0 <= p < n && 0 <= k < h1.children@[p]@.len() implies {
                let c = (#[trigger] h1.children@[p]@[k]).index as int;
                &&& 0 <= c < n
                &&& h1.parents@[c] == Some(Entity { index: p as usize })
            } by {
                let c = h1.children@[p]@[k];
                if p == pi {
                    if k < h0.children@[pi]@.len() {
                        assert(h0.children@[pi]@[k] == c);
                        assert(c != child);
                    }
                } else if prev is Some && p == prev->0.index as int {
                    assert(h1.children@[p]@.contains(c));
                    assert(h0.children@[p]@.contains(c));
                    let k0 = choose|k0: int|
                        0 <= k0 < h0.children@[p]@.len() && h0.children@[p]@[k0] == c;
                    assert(h0.children@[p]@[k0] == c);
                } else {
                    assert(h0.children@[p]@[k] == c);
                    if c == child {
                        assert(h0.parents@[ci] == Some(Entity { index: p as usize }));
                    }
                }
            }
            assert forall|x: int|
                0 <= x < n && x != pi && Some(Entity { index: x as usize }) != prev implies #[trigger] h1.children_of(x)
                == h0.children_of(x) by {}
            if let Some(p) = prev {
                let pl = h0.children@[p.index as int]@;
                assert(0 <= removed_at < pl.len() && pl[removed_at] == child && h1.children_of(
                    p.index as int,
                ) == pl.remove(removed_at));
                assert(h0.children_of(p.index as int) == pl);
                assert(exists|i: int|
                    0 <= i < h0.children_of(p.index as int).len() && h0.children_of(
                        p.index as int,
                    )[i] == child && h1.children_of(p.index as int) == h0.children_of(
                        p.index as int,
                    ).remove(i));
            }
            assert(h1.children_of(pi)[h1.children_of(pi).len() - 1] == child);
        }
        Ok(())
    }

    /// Detaches `child` from its parent, if it has one, pruning the parent's
    /// children, and marks `child` changed: it becomes a root.
    pub fn remove_parent(hierarchy: &mut Hierarchy, child: Entity)
        requires
            old(hierarchy).wf(),
            child.index < old(hierarchy).spec_len(),
        ensures
            final(hierarchy).wf(),
            ({
                let h0 = *old(hierarchy);
                let h1 = *final(hierarchy);
                let prev = h0.parent_of(child.index as int);
                &&& h1.spec_len() == h0.spec_len()
                &&& h1.parent_of(child.index as int) is None
                &&& h1.changed_at(child.index as int)
                &&& prev is Some ==> exists|i: int|
                    0 <= i < h0.children_of(prev->0.index as int).len() && h0.children_of(
                        prev->0.index as int,
                    )[i] == child && h1.children_of(prev->0.index as int) == h0.children_of(
                        prev->0.index as int,
                    ).remove(i)
                &&& prev is Some ==> forall|y: Entity|
                    #[trigger] h1.children_of(prev->0.index as int).contains(y) <==> (
                    h0.children_of(prev->0.index as int).contains(y) && y != child)
                &&& forall|x: int|
                    0 <= x < h0.spec_len() && x != child.index ==> #[trigger] h1.parent_of(x)
                        == h0.parent_of(x) && h1.changed_at(x) == h0.changed_at(x)
                &&& forall|x: int|
                    0 <= x < h0.spec_len() && Some(Entity { index: x as usize }) != prev
                        ==> #[trigger] h1.children_of(x) == h0.children_of(x)
            }),
    {
        let ghost h0 = *hierarchy;
        let prev = hierarchy.parents[child.index];
        let ghost mut removed_at: int = 0;
        match prev {
            Some(p) => {
                proof {
                    assert(h0.children@[p.index as int].wf());
                }
                hierarchy.children[p.index].remove(child);
                proof {
                    let pl = h0.children@[p.index as int]@;
                    let i = choose|i: int|
                        0 <= i < pl.len() && pl[i] == child && hierarchy.children@[p.index as int]@
                            == pl.remove(i);
                    removed_at = i;
                }
            },
            None => {},
        }
        hierarchy.parents.set(child.index, None);
        hierarchy.changed.set(child.index, true);
        proof {
            if let Some(p) = prev {
                let pl = h0.children@[p.index as int]@;
                assert(0 <= removed_at < pl.len() && pl[removed_at] == child
                    && hierarchy.children_of(p.index as int) == pl.remove(removed_at));
                assert(h0.children_of(p.index as int) == pl);
            }
        }
        proof {
            let h1 = *hierarchy;
            let n = h0.parents@.len();
            let ci = child.index as int;
            assert forall|x: int| 0 <= x < n implies (#[trigger] h1.children@[x]).wf() by {
                assert(h0.children@[x].wf());
            }
            assert forall|x: int| 0 <= x < n && (#[trigger] h1.parents@[x]) is Some implies {
                let p = h1.parents@[x]->0.index as int;
                &&& 0 <= p < n
                &&& h1.rank@[p] < h1.rank@[x]
                &&& h1.children@[p]@.contains(Entity { index: x as usize })
            } by {
                let q = h0.parents@[x]->0.index as int;
                assert(h0.children@[q]@.contains(Entity { index: x as usize }));
                if prev is Some && q == prev->0.index as int {
                    assert(Entity { index: x as usize } != child);
                }
            }
            assert forall|p: int, k: int|
                0 <= p < n && 0 <= k < h1.children@[p]@.len() implies {
                let c = (#[trigger] h1.children@[p]@[k]).index as int;
                &&& 0 <= c < n
                &&& h1.parents@[c] == Some(Entity { index: p as usize })
            } by {
                let c = h1.children@[p]@[k];
                if prev is Some && p == prev->0.index as int {
                    assert(h1.children@[p]@.contains(c));
                    assert(h0.children@[p]@.contains(c));
                    let k0 = choose|k0: int|
                        0 <= k0 < h0.children@[p]@.len() && h0.children@[p]@[k0] == c;
                    assert(h0.children@[p]@[k0] == c);
                } else {
                    assert(h0.children@[p]@[k] == c);
                    if c == child {
                        assert(h0.parents@[ci] == Some(Entity { index: p as usize }));
                    }
                }
            }
        }
    }

    /// Cuts `entity` out of the relation, as when it is destroyed: it leaves
    /// its parent's children, and each of its children becomes a root. Every
    /// entity whose parent changed is marked changed.
    pub fn detach(hierarchy: &mut Hierarchy, entity: Entity)
        requires
            old(hierarchy).wf(),
            entity.index < old(hierarchy).spec_len(),
        ensures
            final(hierarchy).wf(),
            ({
                let h0 = *old(hierarchy);
                let h1 = *final(hierarchy);
                let e = entity.index as int;
                let prev = h0.parent_of(e);
                &&& h1.spec_len() == h0.spec_len()
                &&& h1.parent_of(e) is None
                &&& h1.changed_at(e)
                &&& h1.children_of(e).len() == 0
                &&& prev is Some ==> exists|i: int|
                    0 <= i < h0.children_of(prev->0.index as int).len() && h0.children_of(
                        prev->0.index as int,
                    )[i] == entity && h1.children_of(prev->0.index as int) == h0.children_of(
                        prev->0.index as int,
                    ).remove(i)
                &&& prev is Some ==> forall|y: Entity|
                    #[trigger] h1.children_of(prev->0.index as int).contains(y) <==> (
                    h0.children_of(prev->0.index as int).contains(y) && y != entity)
                &&& forall|x: int|
                    0 <= x < h0.spec_len() && h0.parent_of(x) == Some(entity) ==> #[trigger] h1.parent_of(x)
                        is None && h1.changed_at(x)
                &&& forall|x: int|
                    0 <= x < h0.spec_len() && x != e && h0.parent_of(x) != Some(entity)
                        ==> #[trigger] h1.parent_of(x) == h0.parent_of(x) && h1.changed_at(x)
                        == h0.changed_at(x)
                &&& forall|x: int|
                    0 <= x < h0.spec_len() && x != e && Some(Entity { index: x as usize }) != prev
                        ==> #[trigger] h1.children_of(x) == h0.children_of(x)
            }),
    {
        let ghost h0 = *hierarchy;
        let ghost e = entity.index as int;
        let n = hierarchy.children[entity.index].children.len();
        let mut kids: Vec<Entity> = Vec::new();
        let mut i: usize = 0;
        while i < n
            invariant
                *hierarchy == h0,
                h0.wf(),
                e == entity.index,
                entity.index < h0.spec_len(),
                n == h0.children@[e]@.len(),
                i <= n,
                kids@ == h0.children@[e]@.subrange(0, i as int),
            decreases n - i,
        {
            kids.push(hierarchy.children[entity.index].children[i]);
            i += 1;
            proof {
                assert(kids@ =~= h0.children@[e]@.subrange(0, i as int));
            }
        }
        proof {
            assert(kids@ =~= h0.children@[e]@);
            assert(h0.children@[e].wf());
        }
        let mut j: usize = 0;
        while j < kids.len()
            invariant
                hierarchy.wf(),
                h0.wf(),
                0 <= e < h0.spec_len(),
                kids@ == h0.children_of(e),
                kids@.no_duplicates(),
                j <= kids@.len(),
                hierarchy.spec_len() == h0.spec_len(),
                forall|t: int| 0 <= t < j ==> #[trigger] hierarchy.parent_of(kids@[t].index as int) is None
                    && hierarchy.changed_at(kids@[t].index as int),
                forall|t: int| j <= t < kids@.len() ==> #[trigger] hierarchy.parent_of(kids@[t].index as int)
                    == Some(entity),
                forall|y: Entity| #[trigger] hierarchy.children_of(e).contains(y) <==> (exists|t: int|
                    j <= t < kids@.len() && kids@[t] == y),
                forall|x: int|
                    0 <= x < h0.spec_len() && h0.parent_of(x) != Some(entity) ==> #[trigger] hierarchy.parent_of(x)
                        == h0.parent_of(x) && hierarchy.changed_at(x) == h0.changed_at(x),
                forall|x: int|
                    0 <= x < h0.spec_len() && x != e ==> #[trigger] hierarchy.children_of(x)
                        == h0.children_of(x),
            decreases kids@.len() - j,
        {
            let k = kids[j];
            proof {
                assert(h0.children@[e]@[j as int] == k);
            }
            let ghost before = *hierarchy;
            TransformHierarchy::remove_parent(hierarchy, k);
            proof {
                assert forall|t: int| 0 <= t < j + 1 implies #[trigger] hierarchy.parent_of(kids@[t].index as int) is None
                    && hierarchy.changed_at(kids@[t].index as int) by {
                    if t < j {
                        assert(kids@[t] != k);
                        assert(kids@[t].index != k.index);
                    }
                }
                assert forall|t: int| j + 1 <= t < kids@.len() implies #[trigger] hierarchy.parent_of(kids@[t].index as int)
                    == Some(entity) by {
                    assert(kids@[t] != k);
                    assert(kids@[t].index != k.index);
                }
                assert forall|y: Entity| #[trigger] hierarchy.children_of(e).contains(y) <==> (exists|t: int|
                    j + 1 <= t < kids@.len() && kids@[t] == y) by {
                    if hierarchy.children_of(e).contains(y) {
                        assert(before.children_of(e).contains(y) && y != k);
                        let t = choose|t: int| j <= t < kids@.len() && kids@[t] == y;
                        assert(t != j);
                    }
                    if exists|t: int| j + 1 <= t < kids@.len() && kids@[t] == y {
                        let t = choose|t: int| j + 1 <= t < kids@.len() && kids@[t] == y;
                        assert(before.children_of(e).contains(y));
                        assert(kids@[t] != kids@[j as int]);
                    }
                }
                assert forall|x: int|
                    0 <= x < h0.spec_len() && h0.parent_of(x) != Some(entity) implies #[trigger] hierarchy.parent_of(x)
                        == h0.parent_of(x) && hierarchy.changed_at(x) == h0.changed_at(x) by {
                    assert(x != k.index);
                }
            }
            j += 1;
        }
        proof {
            assert(hierarchy.children_of(e).len() == 0) by {
                if hierarchy.children_of(e).len() > 0 {
                    let y = hierarchy.children_of(e)[0];
                    assert(hierarchy.children_of(e).contains(y));
                }
            }
        }
        let ghost mid = *hierarchy;
        TransformHierarchy::remove_parent(hierarchy, entity);
        proof {
            let h1 = *hierarchy;
            let prev = h0.parent_of(e);
            assert(mid.parent_of(e) == prev);
            assert forall|x: int|
                0 <= x < h0.spec_len() && h0.parent_of(x) == Some(entity) implies #[trigger] h1.parent_of(x)
                    is None && h1.changed_at(x) by {
                assert(h0.children@[e]@.contains(Entity { index: x as usize }));
                let t = choose|t: int| 0 <= t < kids@.len() && kids@[t] == Entity { index: x as usize };
                assert(mid.parent_of(kids@[t].index as int) is None);
                if x == e {
                    assert(h0.rank_of(e) < h0.rank_of(e));
                }
            }
            assert forall|x: int|
                0 <= x < h0.spec_len() && x != e && Some(Entity { index: x as usize }) != prev
                    implies #[trigger] h1.children_of(x) == h0.children_of(x) by {
                assert(mid.children_of(x) == h0.children_of(x));
            }
            assert(h1.children_of(e) == mid.children_of(e)) by {
                if prev == Some(entity) {
                    assert(h0.rank_of(e) < h0.rank_of(e));
                }
            }
            if let Some(p) = prev {
                assert(p.index as int != e) by {
                    assert(h0.rank_of(p.index as int) < h0.rank_of(e));
                }
                assert(mid.children_of(p.index as int) == h0.children_of(p.index as int));
            }
        }
    }

    /// The ancestors of `entity`, from its parent up to its root.
    pub fn get_ancestors(hierarchy: &Hierarchy, entity: Entity) -> (r: Vec<Entity>)
        requires
            hierarchy.wf(),
            entity.index < hierarchy.spec_len(),
        ensures
            r@ == hierarchy.ancestors(entity.index as int),
    {
        let mut out: Vec<Entity> = Vec::new();
        let mut cur = entity.index;
        loop
            invariant
                hierarchy.wf(),
                cur < hierarchy.spec_len(),
                out@ + hierarchy.ancestors(cur as int) == hierarchy.ancestors(entity.index as int),
            decreases hierarchy.rank_of(cur as int),
        {
            match hierarchy.parents[cur] {
                None => {
                    proof {
                        assert(out@ + hierarchy.ancestors(cur as int) =~= out@);
                    }
                    return out;
                },
                Some(p) => {
                    proof {
                        assert(out@.push(p) + hierarchy.ancestors(p.index as int) =~= out@
                            + hierarchy.ancestors(cur as int));
                    }
                    out.push(p);
                    cur = p.index;
                },
            }
        }
    }

    /// The strict descendants of `entity` in pre-order: each child in list
    /// order, followed at once by that child's own descendants.
    pub fn get_descendants(hierarchy: &Hierarchy, entity: Entity) -> (r: Vec<Entity>)
        requires
            hierarchy.wf(),
            entity.index < hierarchy.spec_len(),
        ensures
            r@ == hierarchy.descendants_preorder(entity.index as int),
            forall|y: Entity| #[trigger]
                r@.contains(y) <==> (y != entity && hierarchy.is_ancestor_or_self(
                    entity.index as int,
                    y.index as int,
                )),
    {
        let mut out: Vec<Entity> = Vec::new();
        collect_preorder(hierarchy, entity.index, &mut out);
        proof {
            assert(out@ =~= hierarchy.descendants_preorder(entity.index as int));
            assert forall|y: Entity| #[trigger]
                out@.contains(y) <==> (y != entity && hierarchy.is_ancestor_or_self(
                    entity.index as int,
                    y.index as int,
                )) by {
                lemma_preorder_members(hierarchy, entity.index as int, y);
            }
        }
        out
    }
}


/// Appends the descendants of `x` to `out`, in pre-order.
fn collect_preorder(hierarchy: &Hierarchy, x: usize, out: &mut Vec<Entity>)
    requires
        hierarchy.wf(),
        x < hierarchy.spec_len(),
    ensures
        final(out)@ == old(out)@ + hierarchy.descendants_preorder(x as int),
    decreases (hierarchy.rank_bound() - hierarchy.rank_of(x as int)) as nat,
{
    let cs = &hierarchy.children[x];
    proof {
        hierarchy.lemma_relation(x as int, x as int);
    }
    let mut k: usize = 0;
    while k < cs.children.len()
        invariant
            hierarchy.wf(),
            x < hierarchy.spec_len(),
            cs@ == hierarchy.children_of(x as int),
            k <= cs@.len(),
            hierarchy.rank_of(x as int) < hierarchy.rank_bound(),
            forall|j: int|
                0 <= j < hierarchy.children_of(x as int).len() ==> {
                    let c = (#[trigger] hierarchy.children_of(x as int)[j]).index as int;
                    &&& 0 <= c < hierarchy.spec_len()
                    &&& hierarchy.rank_of(x as int) < hierarchy.rank_of(c)
                    &&& hierarchy.rank_of(c) < hierarchy.rank_bound()
                },
            out@ == old(out)@ + hierarchy.subtrees_preorder(x as int, cs@.subrange(0, k as int)),
        decreases cs@.len() - k,
    {
        let c = cs.children[k];
        let ghost before = out@;
        proof {
            assert(cs@[k as int] == c);
            assert(hierarchy.children_of(x as int)[k as int] == c);
        }
        out.push(c);
        collect_preorder(hierarchy, c.index, out);
        proof {
            let pre = cs@.subrange(0, k as int + 1);
            assert(pre.drop_last() =~= cs@.subrange(0, k as int));
            assert(pre.last() == c);
            assert(hierarchy.subtrees_preorder(x as int, pre) == hierarchy.subtrees_preorder(
                x as int,
                cs@.subrange(0, k as int),
            ) + seq![c] + hierarchy.descendants_preorder(c.index as int));
            assert(out@ =~= old(out)@ + hierarchy.subtrees_preorder(x as int, pre));
        }
        k += 1;
    }
    proof {
        assert(cs@.subrange(0, cs@.len() as int) =~= cs@);
    }
}

/// An ancestor never ranks above its descendant.
proof fn lemma_ancestor_ranks_below(h: &Hierarchy, a: int, y: int)
    requires
        h.wf(),
        h.is_ancestor_or_self(a, y),
    ensures
        0 <= y < h.spec_len(),
        h.rank_of(a) <= h.rank_of(y),
    decreases h.rank_of(y),
{
    if y != a {
        let p = h.parents@[y]->0.index as int;
        lemma_ancestor_ranks_below(h, a, p);
    }
}

/// A child's descendants are its parent's descendants too.
proof fn lemma_child_ancestor_lifts(h: &Hierarchy, x: int, c: int, y: int)
    requires
        h.wf(),
        0 <= x < h.spec_len(),
        0 <= c < h.spec_len(),
        h.parent_of(c) == Some(Entity { index: x as usize }),
        h.is_ancestor_or_self(c, y),
    ensures
        h.is_ancestor_or_self(x, y),
    decreases h.rank_of(y),
{
    lemma_ancestor_ranks_below(h, c, y);
    assert(h.is_ancestor_or_self(x, x));
    if y != c {
        let p = h.parents@[y]->0.index as int;
        lemma_child_ancestor_lifts(h, x, c, p);
    }
}

/// A strict descendant of `x` lies below one of `x`'s children.
proof fn lemma_strict_descendant_below_child(h: &Hierarchy, x: int, y: int)
    requires
        h.wf(),
        0 <= x < h.spec_len(),
        y != x,
        h.is_ancestor_or_self(x, y),
    ensures
        exists|k: int|
            0 <= k < h.children_of(x).len() && h.is_ancestor_or_self(
                (#[trigger] h.children_of(x)[k]).index as int,
                y,
            ),
    decreases h.rank_of(y),
{
    let p = h.parents@[y]->0.index as int;
    if p == x {
        h.lemma_relation(y, x);
        let k = choose|k: int| 0 <= k < h.children_of(x).len() && h.children_of(x)[k] == Entity { index: y as usize };
        assert(h.is_ancestor_or_self(h.children_of(x)[k].index as int, y));
    } else {
        lemma_strict_descendant_below_child(h, x, p);
        let k = choose|k: int|
            0 <= k < h.children_of(x).len() && h.is_ancestor_or_self(
                (#[trigger] h.children_of(x)[k]).index as int,
                p,
            );
        let c = h.children_of(x)[k].index as int;
        h.lemma_relation(c, x);
        assert(y != c);
        assert(h.is_ancestor_or_self(c, y));
    }
}

/// The pre-order of `x` lists exactly its strict descendants.
pub proof fn lemma_preorder_members(h: &Hierarchy, x: int, y: Entity)
    requires
        h.wf(),
        0 <= x < h.spec_len(),
    ensures
        h.descendants_preorder(x).contains(y) <==> (y.index != x && h.is_ancestor_or_self(
            x,
            y.index as int,
        )),
    decreases (h.rank_bound() - h.rank_of(x)) as nat, 1nat, 0nat,
{
    let cs = h.children_of(x);
    h.lemma_relation(x, x);
    lemma_subtrees_members(h, x, cs.len() as int, y);
    assert(cs.subrange(0, cs.len() as int) =~= cs);
    if y.index != x && h.is_ancestor_or_self(x, y.index as int) {
        lemma_strict_descendant_below_child(h, x, y.index as int);
    }
    if exists|k: int| 0 <= k < cs.len() && h.is_ancestor_or_self((#[trigger] cs[k]).index as int, y.index as int) {
        let k = choose|k: int| 0 <= k < cs.len() && h.is_ancestor_or_self((#[trigger] cs[k]).index as int, y.index as int);
        let c = cs[k].index as int;
        h.lemma_relation(c, x);
        lemma_child_ancestor_lifts(h, x, c, y.index as int);
        lemma_ancestor_ranks_below(h, c, y.index as int);
    }
}

/// The first `m` subtrees of `x`'s children list exactly the entities
/// below one of those children.
proof fn lemma_subtrees_members(h: &Hierarchy, x: int, m: int, y: Entity)
    requires
        h.wf(),
        0 <= x < h.spec_len(),
        0 <= m <= h.children_of(x).len(),
    ensures
        h.subtrees_preorder(x, h.children_of(x).subrange(0, m)).contains(y) <==> exists|k: int|
            0 <= k < m && h.is_ancestor_or_self(
                (#[trigger] h.children_of(x)[k]).index as int,
                y.index as int,
            ),
    decreases (h.rank_bound() - h.rank_of(x)) as nat, 0nat, m,
{
    let cs = h.children_of(x);
    h.lemma_relation(x, x);
    if m > 0 {
        let pre = cs.subrange(0, m);
        assert(pre.drop_last() =~= cs.subrange(0, m - 1));
        let c = cs[m - 1];
        let ci = c.index as int;
        assert(pre.last() == c);
        lemma_subtrees_members(h, x, m - 1, y);
        lemma_preorder_members(h, ci, y);
        let left = h.subtrees_preorder(x, cs.subrange(0, m - 1));
        let whole = h.subtrees_preorder(x, pre);
        assert(whole == left + seq![c] + h.descendants_preorder(ci));
        if whole.contains(y) {
            let i = choose|i: int| 0 <= i < whole.len() && whole[i] == y;
            if i < left.len() {
                assert(left[i] == y);
            } else if i == left.len() {
                assert(y == c);
                assert(h.is_ancestor_or_self(ci, y.index as int));
            } else {
                assert(h.descendants_preorder(ci)[i - left.len() - 1] == y);
                assert(h.descendants_preorder(ci).contains(y));
            }
        }
        if exists|k: int| 0 <= k < m && h.is_ancestor_or_self((#[trigger] cs[k]).index as int, y.index as int) {
            let k = choose|k: int| 0 <= k < m && h.is_ancestor_or_self((#[trigger] cs[k]).index as int, y.index as int);
            if k < m - 1 {
                let i = choose|i: int| 0 <= i < left.len() && left[i] == y;
                assert(whole[i] == y);
            } else if y == c {
                assert(whole[left.len() as int] == y);
            } else {
                assert(y.index != ci);
                let d = h.descendants_preorder(ci);
                let i = choose|i: int| 0 <= i < d.len() && d[i] == y;
                assert(whole[left.len() + 1 + i] == y);
            }
        }
    }
}

/// A sequence of distinct entities whose indices are below `n` holds at most
/// `n` of them.
proof fn lemma_distinct_entities_bounded(s: Seq<Entity>, n: nat)
    requires
        s.no_duplicates(),
        forall|k: int| 0 <= k < s.len() ==> (#[trigger] s[k]).index < n,
    ensures
        s.len() <= n,
{
    let t = s.map_values(|e: Entity| e.index as int);
    assert(t.no_duplicates()) by {
        assert forall|a: int, b: int| 0 <= a < t.len() && 0 <= b < t.len() && a != b implies t[a]
            != t[b] by {
            assert(s[a] != s[b]);
        }
    }
    t.unique_seq_to_set();
    assert(t.to_set().subset_of(set_int_range(0, n as int))) by {
        assert forall|v: int| t.to_set().contains(v) implies set_int_range(0, n as int).contains(v) by {
            let k = choose|k: int| 0 <= k < t.len() && t[k] == v;
            assert(s[k].index < n);
        }
    }
    lemma_int_range(0, n as int);
    lemma_len_subset(t.to_set(), set_int_range(0, n as int));
}

/// Once every listed entity has had its children listed, every entity is
/// listed: by induction on the rank, each one's parent is listed first.
proof fn lemma_all_reached(h: &Hierarchy, order: Seq<Entity>, seen: Seq<bool>, y: int)
    requires
        h.wf(),
        0 <= y < h.spec_len(),
        seen.len() == h.spec_len(),
        forall|x: int| 0 <= x < h.spec_len() && #[trigger] seen[x] ==> order.contains(Entity { index: x as usize }),
        forall|x: int| 0 <= x < h.spec_len() && h.parents@[x] is None ==> #[trigger] seen[x],
        forall|j: int, m: int|
            0 <= j < order.len() && 0 <= m < h.children@[order[j].index as int]@.len() ==> #[trigger] seen[
                (#[trigger] h.children@[order[j].index as int]@[m]).index as int],
    ensures
        seen[y],
    decreases h.rank_of(y),
{
    match h.parents@[y] {
        None => {},
        Some(p) => {
            let q = p.index as int;
            lemma_all_reached(h, order, seen, q);
            let j = choose|j: int| 0 <= j < order.len() && order[j] == Entity { index: q as usize };
            assert(order[j].index as int == q);
            assert(h.children@[q]@.contains(Entity { index: y as usize }));
            let m = choose|m: int| 0 <= m < h.children@[q]@.len() && h.children@[q]@[m] == Entity { index: y as usize };
            assert(h.children@[order[j].index as int]@[m] == Entity { index: y as usize });
        },
    }
}

} // verus!
