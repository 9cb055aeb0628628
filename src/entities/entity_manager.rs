use vstd::prelude::*;

use crate::entities::entity::{Entity, lemma_view_injective};
use crate::entities::entity_memory_pool::{EntityMemoryPool, PoolView};
use crate::entities::{EntityTag, TAG_COUNT, lemma_tag_index_inverse, tag_at, tag_index};

verus! {

/// The canonical list of live entities and one view per tag. New entities
/// wait in `entities_to_add` until the next `update`, which also drops the
/// entries whose slot is no longer active or, in a view, no longer carries
/// that view's tag.
pub struct EntityManager {
    pub entities: Vec<Entity>,
    /// One view per tag, at the tag's index.
    pub entity_map: Vec<Vec<Entity>>,
    pub entities_to_add: Vec<(Entity, EntityTag)>,
}

/// The entities of the pending pairs, in order.
pub open spec fn pending_entities(p: Seq<(Entity, EntityTag)>) -> Seq<Entity>
    decreases p.len(),
{
    if p.len() == 0 {
        Seq::empty()
    } else {
        pending_entities(p.drop_last()).push(p.last().0)
    }
}

/// The entities of the pending pairs with tag `tag`, in order.
pub open spec fn pending_tagged(p: Seq<(Entity, EntityTag)>, tag: EntityTag) -> Seq<Entity>
    decreases p.len(),
{
    if p.len() == 0 {
        Seq::empty()
    } else if p.last().1 == tag {
        pending_tagged(p.drop_last(), tag).push(p.last().0)
    } else {
        pending_tagged(p.drop_last(), tag)
    }
}

/// The entity names an active slot of the store and, given a tag, the slot
/// carries that tag.
pub open spec fn keeps(pool: PoolView, tag: Option<EntityTag>) -> spec_fn(Entity) -> bool {
    |e: Entity|
        e@ < pool.capacity() && pool.active[e@ as int] && (tag is None || pool.tags[e@ as int] == tag->0)
}

/// The entries of `s` that satisfy `p`, each once, in the order of their
/// first appearance.
pub open spec fn kept(s: Seq<Entity>, p: spec_fn(Entity) -> bool) -> Seq<Entity>
    decreases s.len(),
{
    if s.len() == 0 {
        Seq::empty()
    } else {
        let r = kept(s.drop_last(), p);
        if p(s.last()) && !r.contains(s.last()) {
            r.push(s.last())
        } else {
            r
        }
    }
}

/// Some entry of `s` names slot `i`.
pub open spec fn has_id(s: Seq<Entity>, i: int) -> bool {
    exists|j: int| 0 <= j < s.len() && s[j]@ == i
}

/// Some pending pair names slot `i` with tag `tag`.
pub open spec fn pending_has(p: Seq<(Entity, EntityTag)>, tag: EntityTag, i: int) -> bool {
    exists|j: int| 0 <= j < p.len() && p[j].0@ == i && p[j].1 == tag
}

/// Some pending pair names slot `i`.
pub open spec fn pending_names(p: Seq<(Entity, EntityTag)>, i: int) -> bool {
    exists|j: int| 0 <= j < p.len() && p[j].0@ == i
}

/// Every active slot of the store is held by the manager: the canonical
/// list names it or it waits to join, and the view of the slot's tag names
/// it or it waits to join under that tag. Allocating through the manager,
/// destroying and reconciling keep this.
pub open spec fn covers(m: EntityManager, pool: PoolView) -> bool {
    forall|i: int|
        #![trigger pool.active[i]]
        0 <= i < pool.capacity() && pool.active[i] ==> (has_id(m.entities@, i) || pending_names(
            m.pending(),
            i,
        )) && (has_id(m.view_of(pool.tags[i]), i) || pending_has(m.pending(), pool.tags[i], i))
}

/// The canonical list names each active slot once and nothing else; the
/// view of each tag names each active slot with that tag once and nothing
/// else.
pub open spec fn views_exact(m: EntityManager, pool: PoolView) -> bool {
    &&& m.entities@.no_duplicates()
    &&& forall|i: int| #[trigger] has_id(m.entities@, i) <==> 0 <= i < pool.capacity() && pool.active[i]
    &&& forall|tag: EntityTag| (#[trigger] m.view_of(tag)).no_duplicates()
    &&& forall|tag: EntityTag, i: int|
        #[trigger] has_id(m.view_of(tag), i) <==> 0 <= i < pool.capacity() && pool.active[i]
            && pool.tags[i] == tag
}

pub proof fn lemma_kept(s: Seq<Entity>, p: spec_fn(Entity) -> bool)
    ensures
        kept(s, p).no_duplicates(),
        forall|e: Entity| #[trigger] kept(s, p).contains(e) <==> s.contains(e) && p(e),
    decreases s.len(),
{
    if s.len() > 0 {
        let d = s.drop_last();
        lemma_kept(d, p);
        let r = kept(d, p);
        assert forall|e: Entity| s.contains(e) <==> d.contains(e) || e == s.last() by {
            if s.contains(e) {
                let j = choose|j: int| 0 <= j < s.len() && s[j] == e;
                if j < d.len() {
                    assert(d[j] == e);
                }
            }
            if d.contains(e) {
                let j = choose|j: int| 0 <= j < d.len() && d[j] == e;
                assert(s[j] == e);
            }
            assert(s[s.len() - 1] == s.last());
        }
        if p(s.last()) && !r.contains(s.last()) {
            let x = s.last();
            assert forall|e: Entity| r.push(x).contains(e) <==> r.contains(e) || e == x by {
                if r.push(x).contains(e) {
                    let j = choose|j: int| 0 <= j < r.len() + 1 && r.push(x)[j] == e;
                    if j < r.len() {
                        assert(r[j] == e);
                    }
                }
                if r.contains(e) {
                    let j = choose|j: int| 0 <= j < r.len() && r[j] == e;
                    assert(r.push(x)[j] == e);
                }
                assert(r.push(x)[r.len() as int] == x);
            }
            assert forall|a: int, b: int|
                0 <= a < r.push(x).len() && 0 <= b < r.push(x).len() && a != b implies r.push(x)[a]
                != r.push(x)[b] by {
                if a == r.len() {
                    assert(r.contains(r[b]));
                } else if b == r.len() {
                    assert(r.contains(r[a]));
                }
            }
            assert(kept(s, p) == r.push(x));
            assert forall|e: Entity| #[trigger] kept(s, p).contains(e) <==> s.contains(e) && p(e) by {
                assert(r.push(x).contains(e) <==> r.contains(e) || e == x);
            }
        } else {
            assert(kept(s, p) == r);
            assert forall|e: Entity| #[trigger] kept(s, p).contains(e) <==> s.contains(e) && p(e) by {
                assert(s.contains(e) <==> d.contains(e) || e == s.last());
            }
        }
    }
}

/// An entry named by a sequence is kept when it satisfies the predicate.
proof fn lemma_kept_has_id(s: Seq<Entity>, p: spec_fn(Entity) -> bool, i: int)
    requires
        has_id(s, i),
        forall|j: int| 0 <= j < s.len() && s[j]@ == i ==> p(s[j]),
    ensures
        has_id(kept(s, p), i),
{
    lemma_kept(s, p);
    let j = choose|j: int| 0 <= j < s.len() && s[j]@ == i;
    assert(s.contains(s[j]));
    assert(kept(s, p).contains(s[j]));
    let k = choose|k: int| 0 <= k < kept(s, p).len() && kept(s, p)[k] == s[j];
    assert(kept(s, p)[k]@ == i);
}

/// A kept entry satisfies the predicate and comes from the sequence.
pub proof fn lemma_kept_member(s: Seq<Entity>, p: spec_fn(Entity) -> bool, k: int)
    requires
        0 <= k < kept(s, p).len(),
    ensures
        p(kept(s, p)[k]),
        s.contains(kept(s, p)[k]),
{
    lemma_kept(s, p);
    assert(kept(s, p).contains(kept(s, p)[k]));
}

proof fn lemma_has_id_concat(a: Seq<Entity>, b: Seq<Entity>, i: int)
    ensures
        has_id(a + b, i) <==> has_id(a, i) || has_id(b, i),
{
    if has_id(a + b, i) {
        let j = choose|j: int| 0 <= j < (a + b).len() && (a + b)[j]@ == i;
        if j >= a.len() {
            assert(b[j - a.len()]@ == i);
        } else {
            assert(a[j]@ == i);
        }
    }
    if has_id(a, i) {
        let j = choose|j: int| 0 <= j < a.len() && a[j]@ == i;
        assert((a + b)[j]@ == i);
    }
    if has_id(b, i) {
        let j = choose|j: int| 0 <= j < b.len() && b[j]@ == i;
        assert((a + b)[a.len() + j]@ == i);
    }
}

proof fn lemma_pending_tagged_has(p: Seq<(Entity, EntityTag)>, tag: EntityTag, i: int)
    requires
        pending_has(p, tag, i),
    ensures
        has_id(pending_tagged(p, tag), i),
    decreases p.len(),
{
    let j = choose|j: int| 0 <= j < p.len() && p[j].0@ == i && p[j].1 == tag;
    let d = p.drop_last();
    if j == p.len() - 1 {
        let t = pending_tagged(p, tag);
        assert(t[t.len() - 1] == p.last().0);
    } else {
        assert(d[j] == p[j]);
        lemma_pending_tagged_has(d, tag, i);
        let t = pending_tagged(d, tag);
        let k = choose|k: int| 0 <= k < t.len() && t[k]@ == i;
        if p.last().1 == tag {
            assert(t.push(p.last().0)[k]@ == i);
        }
    }
}

proof fn lemma_pending_entities_has(p: Seq<(Entity, EntityTag)>, i: int)
    requires
        pending_names(p, i),
    ensures
        has_id(pending_entities(p), i),
    decreases p.len(),
{
    let j = choose|j: int| 0 <= j < p.len() && p[j].0@ == i;
    let d = p.drop_last();
    if j == p.len() - 1 {
        let t = pending_entities(p);
        assert(t[t.len() - 1] == p.last().0);
    } else {
        assert(d[j] == p[j]);
        lemma_pending_entities_has(d, i);
        let t = pending_entities(d);
        let k = choose|k: int| 0 <= k < t.len() && t[k]@ == i;
        assert(t.push(p.last().0)[k]@ == i);
    }
}

/// An empty manager covers a store with no active slot.
pub proof fn lemma_covers_initially(m: EntityManager, pool: PoolView)
    requires
        forall|i: int| 0 <= i < pool.capacity() ==> !pool.active[i],
    ensures
        covers(m, pool),
{
}

/// Destroying a slot keeps the manager covering the store.
pub proof fn lemma_covers_after_destroy(m: EntityManager, pool: PoolView, id: int)
    requires
        covers(m, pool),
        0 <= id < pool.capacity(),
    ensures
        covers(m, pool.with_active(id, false)),
{
    let after = pool.with_active(id, false);
    assert forall|i: int|
        #![trigger after.active[i]]
        0 <= i < after.capacity() && after.active[i] implies (has_id(m.entities@, i)
        || pending_names(m.pending(), i)) && (has_id(m.view_of(after.tags[i]), i) || pending_has(
        m.pending(),
        after.tags[i],
        i,
    )) by {
        assert(pool.active[i]);
    }
}

/// Reconciling a manager that covers the store leaves exact views and the
/// store still covered.
proof fn lemma_exact_after_update(before: EntityManager, after: EntityManager, pool: PoolView)
    requires
        covers(before, pool),
        after.wf(),
        after.pending().len() == 0,
        after.entities@ == before.reconciled_entities(pool),
        forall|tag: EntityTag| #[trigger] after.view_of(tag) == before.reconciled_view(tag, pool),
    ensures
        views_exact(after, pool),
        covers(after, pool),
{
    let ce = before.entities@ + pending_entities(before.pending());
    lemma_kept(ce, keeps(pool, None));
    assert forall|i: int| #[trigger] has_id(after.entities@, i) <==> 0 <= i < pool.capacity()
        && pool.active[i] by {
        if has_id(after.entities@, i) {
            let k = choose|k: int| 0 <= k < after.entities@.len() && after.entities@[k]@ == i;
            lemma_kept_member(ce, keeps(pool, None), k);
        }
        if 0 <= i < pool.capacity() && pool.active[i] {
            if pending_names(before.pending(), i) {
                lemma_pending_entities_has(before.pending(), i);
            }
            lemma_has_id_concat(before.entities@, pending_entities(before.pending()), i);
            lemma_kept_has_id(ce, keeps(pool, None), i);
        }
    }
    assert forall|tag: EntityTag| (#[trigger] after.view_of(tag)).no_duplicates() by {
        lemma_kept(before.view_of(tag) + pending_tagged(before.pending(), tag), keeps(pool, Some(tag)));
    }
    assert forall|tag: EntityTag, i: int| #[trigger] has_id(after.view_of(tag), i) <==> 0 <= i
        < pool.capacity() && pool.active[i] && pool.tags[i] == tag by {
        let cv = before.view_of(tag) + pending_tagged(before.pending(), tag);
        if has_id(after.view_of(tag), i) {
            let k = choose|k: int| 0 <= k < after.view_of(tag).len() && after.view_of(tag)[k]@ == i;
            lemma_kept_member(cv, keeps(pool, Some(tag)), k);
        }
        if 0 <= i < pool.capacity() && pool.active[i] && pool.tags[i] == tag {
            if pending_has(before.pending(), tag, i) {
                lemma_pending_tagged_has(before.pending(), tag, i);
            }
            lemma_has_id_concat(before.view_of(tag), pending_tagged(before.pending(), tag), i);
            lemma_kept_has_id(cv, keeps(pool, Some(tag)), i);
        }
    }
    assert forall|i: int|
        #![trigger pool.active[i]]
        0 <= i < pool.capacity() && pool.active[i] implies (has_id(after.entities@, i)
        || pending_names(after.pending(), i)) && (has_id(after.view_of(pool.tags[i]), i) || pending_has(
        after.pending(),
        pool.tags[i],
        i,
    )) by {
        assert(has_id(after.entities@, i));
        assert(has_id(after.view_of(pool.tags[i]), i));
    }
}

fn contains_entity(v: &Vec<Entity>, e: Entity) -> (r: bool)
    ensures
        r == v@.contains(e),
{
    let mut j: usize = 0;
    while j < v.len()
        invariant
            j <= v@.len(),
            forall|k: int| 0 <= k < j ==> v@[k] != e,
        decreases v.len() - j,
    {
        if v[j].id() == e.id() {
            proof {
                lemma_view_injective(v@[j as int], e);
            }
            return true;
        }
        proof {
            lemma_view_injective(v@[j as int], e);
        }
        j = j + 1;
    }
    false
}

/// The entries of `v` that `keeps(pool, tag)` accepts, each once, in order.
fn kept_of(v: &Vec<Entity>, pool: &EntityMemoryPool, tag: Option<EntityTag>) -> (r: Vec<Entity>)
    requires
        pool.wf(),
        forall|i: int| 0 <= i < v@.len() ==> v@[i]@ < pool@.capacity(),
    ensures
        r@ == kept(v@, keeps(pool@, tag)),
{
    let mut r: Vec<Entity> = Vec::new();
    let mut i: usize = 0;
    while i < v.len()
        invariant
            i <= v@.len(),
            pool.wf(),
            forall|j: int| 0 <= j < v@.len() ==> v@[j]@ < pool@.capacity(),
            r@ == kept(v@.take(i as int), keeps(pool@, tag)),
        decreases v.len() - i,
    {
        let e = v[i];
        proof {
            assert(v@.take(i as int + 1).drop_last() =~= v@.take(i as int));
            assert(v@.take(i as int + 1).last() == e);
        }
        let ok = pool.is_active(e.id()) && match tag {
            Some(t) => *pool.get_tag(e.id()) == t,
            None => true,
        };
        if ok && !contains_entity(&r, e) {
            r.push(e);
        }
        i = i + 1;
    }
    proof {
        assert(v@.take(v@.len() as int) =~= v@);
    }
    r
}

impl EntityManager {
    pub open spec fn wf(&self) -> bool {
        self.entity_map@.len() == TAG_COUNT
    }

    /// The view of the entities tagged `tag`.
    pub open spec fn view_of(&self, tag: EntityTag) -> Seq<Entity> {
        self.entity_map@[tag_index(tag)]@
    }

    pub open spec fn pending(&self) -> Seq<(Entity, EntityTag)> {
        self.entities_to_add@
    }

    /// Every entity held names a slot below `cap`.
    pub open spec fn ids_below(&self, cap: int) -> bool {
        &&& forall|i: int| 0 <= i < self.entities@.len() ==> self.entities@[i]@ < cap
        &&& forall|k: int, i: int|
            0 <= k < TAG_COUNT && 0 <= i < self.entity_map@[k]@.len() ==> self.entity_map@[k]@[i]@
                < cap
        &&& forall|i: int| 0 <= i < self.entities_to_add@.len() ==> self.entities_to_add@[i].0@ < cap
    }

    /// The canonical list after reconciliation against `pool`.
    pub open spec fn reconciled_entities(&self, pool: PoolView) -> Seq<Entity> {
        kept(self.entities@ + pending_entities(self.pending()), keeps(pool, None))
    }

    /// The view of `tag` after reconciliation against `pool`.
    pub open spec fn reconciled_view(&self, tag: EntityTag, pool: PoolView) -> Seq<Entity> {
        kept(self.view_of(tag) + pending_tagged(self.pending(), tag), keeps(pool, Some(tag)))
    }

    pub fn new() -> (r: EntityManager)
        ensures
            r.wf(),
            r.entities@.len() == 0,
            r.pending().len() == 0,
            forall|tag: EntityTag| (#[trigger] r.view_of(tag)).len() == 0,
            forall|k: int| 0 <= k < TAG_COUNT ==> (#[trigger] r.entity_map@[k])@.len() == 0,
    {
        let mut entity_map: Vec<Vec<Entity>> = Vec::with_capacity(TAG_COUNT);
        let mut k: usize = 0;
        while k < TAG_COUNT
            invariant
                k <= TAG_COUNT,
                entity_map@.len() == k,
                forall|j: int| 0 <= j < k ==> entity_map@[j]@.len() == 0,
            decreases TAG_COUNT - k,
        {
            entity_map.push(Vec::new());
            k = k + 1;
        }
        EntityManager { entities: Vec::new(), entity_map, entities_to_add: Vec::new() }
    }

    /// Allocates a slot for a new entity with tag `tag`. The entity can have
    /// components at once but joins the list and its view only at the next
    /// `update`: the list and every view stay as they were.
    pub fn add_entity(&mut self, tag: EntityTag, entity_memory_pool: &mut EntityMemoryPool) -> (r:
        Entity)
        requires
            old(self).wf(),
            old(self).ids_below(old(entity_memory_pool)@.capacity()),
            old(entity_memory_pool).wf(),
            old(entity_memory_pool)@.has_free_slot(),
        ensures
            final(self).wf(),
            final(self).ids_below(final(entity_memory_pool)@.capacity()),
            final(entity_memory_pool).wf(),
            old(entity_memory_pool)@.is_first_free(r@ as int),
            final(entity_memory_pool)@ == old(entity_memory_pool)@.with_active(r@ as int, true).with_tag(
                r@ as int,
                tag,
            ),
            final(self).entities@ == old(self).entities@,
            final(self).entity_map@ == old(self).entity_map@,
            final(self).pending() == old(self).pending().push((r, tag)),
            covers(*old(self), old(entity_memory_pool)@) ==> covers(*final(self), final(entity_memory_pool)@),
    {
        let entity = entity_memory_pool.add_entity(tag);
        self.entities_to_add.push((entity, tag));
        proof {
            let before = *old(self);
            let pool0 = old(entity_memory_pool)@;
            let pool1 = entity_memory_pool@;
            let p = self.pending();
            if covers(before, pool0) {
                assert forall|i: int|
                    #![trigger pool1.active[i]]
                    0 <= i < pool1.capacity() && pool1.active[i] implies (has_id(
                    self.entities@,
                    i,
                ) || pending_names(p, i)) && (has_id(self.view_of(pool1.tags[i]), i) || pending_has(
                    p,
                    pool1.tags[i],
                    i,
                )) by {
                    let n = p.len() - 1;
                    if i == entity@ {
                        assert(p[n].0@ == i && p[n].1 == pool1.tags[i]);
                    } else {
                        assert(pool0.active[i]);
                        assert(self.view_of(pool1.tags[i]) == before.view_of(pool0.tags[i]));
                        if pending_names(before.pending(), i) {
                            let j = choose|j: int| 0 <= j < before.pending().len() && before.pending()[j].0@ == i;
                            assert(p[j] == before.pending()[j]);
                        }
                        if pending_has(before.pending(), pool0.tags[i], i) {
                            let j = choose|j: int|
                                0 <= j < before.pending().len() && before.pending()[j].0@ == i
                                    && before.pending()[j].1 == pool0.tags[i];
                            assert(p[j] == before.pending()[j]);
                        }
                    }
                }
                assert(covers(*self, entity_memory_pool@));
            }
        }
        entity
    }

    pub fn get_all_entities(&self) -> (r: &Vec<Entity>)
        ensures
            r@ == self.entities@,
    {
        &self.entities
    }

    /// The view of the entities tagged `tag`; every tag has one.
    pub fn get_entities_by_tag(&self, tag: EntityTag) -> (r: Option<&Vec<Entity>>)
        requires
            self.wf(),
        ensures
            (r matches Some(v) && v@ == self.view_of(tag)),
    {
        Some(&self.entity_map[tag.index()])
    }

    /// Mutable access to the view of the entities tagged `tag`.
    pub fn get_entities_by_tag_mut(&mut self, tag: EntityTag) -> (r: Option<&mut Vec<Entity>>)
        requires
            old(self).wf(),
        ensures
            r is Some,
            *r->0 == old(self).entity_map@[tag_index(tag)],
            final(self).entity_map@ == old(self).entity_map@.update(tag_index(tag), *final(r->0)),
            final(self).entities == old(self).entities,
            final(self).entities_to_add == old(self).entities_to_add,
    {
        let k = tag.index();
        Some(&mut self.entity_map[k])
    }

    pub fn get_entity_count_by_tag(&self, tag: EntityTag) -> (r: usize)
        requires
            self.wf(),
        ensures
            r == self.view_of(tag).len(),
    {
        self.entity_map[tag.index()].len()
    }

    /// Reconciliation, once per frame: the pending entities join the list
    /// and the view of their tag, in order; then the list keeps each entry
    /// whose slot is active, and each view each entry whose slot is active
    /// and carries the view's tag, once. When the manager covered the store
    /// before, the list holds exactly the active slots and each view exactly
    /// the active slots with its tag, each once.
    pub fn update(&mut self, entity_memory_pool: &EntityMemoryPool)
        requires
            old(self).wf(),
            old(self).ids_below(entity_memory_pool@.capacity()),
            entity_memory_pool.wf(),
        ensures
            final(self).wf(),
            final(self).ids_below(entity_memory_pool@.capacity()),
            final(self).pending().len() == 0,
            final(self).entities@ == old(self).reconciled_entities(entity_memory_pool@),
            forall|tag: EntityTag|
                #[trigger] final(self).view_of(tag) == old(self).reconciled_view(
                    tag,
                    entity_memory_pool@,
                ),
            final(self).entities@.no_duplicates(),
            forall|tag: EntityTag| (#[trigger] final(self).view_of(tag)).no_duplicates(),
            forall|tag: EntityTag, j: int|
                0 <= j < final(self).view_of(tag).len() ==> #[trigger] keeps(entity_memory_pool@, Some(tag))(
                    final(self).view_of(tag)[j],
                ),
            covers(*old(self), entity_memory_pool@) ==> views_exact(*final(self), entity_memory_pool@),
            covers(*old(self), entity_memory_pool@) ==> covers(*final(self), entity_memory_pool@),
    {
        let ghost cap = entity_memory_pool@.capacity();
        let ghost old_entities = self.entities@;
        let ghost old_map = self.entity_map@;
        let ghost pending = self.entities_to_add@;
        let mut i: usize = 0;
        while i < self.entities_to_add.len()
            invariant
                i <= pending.len(),
                self.entities_to_add@ == pending,
                self.entity_map@.len() == TAG_COUNT,
                old_map.len() == TAG_COUNT,
                forall|j: int| 0 <= j < pending.len() ==> pending[j].0@ < cap,
                forall|j: int| 0 <= j < self.entities@.len() ==> self.entities@[j]@ < cap,
                forall|k: int, j: int|
                    0 <= k < TAG_COUNT && 0 <= j < self.entity_map@[k]@.len()
                        ==> self.entity_map@[k]@[j]@ < cap,
                self.entities@ == old_entities + pending_entities(pending.take(i as int)),
                forall|k: int|
                    0 <= k < TAG_COUNT ==> self.entity_map@[k]@ == old_map[k]@ + pending_tagged(
                        pending.take(i as int),
                        tag_at(k),
                    ),
            decreases pending.len() - i,
        {
            let (e, t) = self.entities_to_add[i];
            let k = t.index();
            proof {
                assert(pending.take(i as int + 1).drop_last() =~= pending.take(i as int));
                assert(pending.take(i as int + 1).last() == (e, t));
            }
            self.entities.push(e);
            self.entity_map[k].push(e);
            proof {
                assert(self.entities@ =~= old_entities + pending_entities(pending.take(i as int + 1)));
                assert forall|k2: int| 0 <= k2 < TAG_COUNT implies self.entity_map@[k2]@ == old_map[k2]@
                    + pending_tagged(pending.take(i as int + 1), tag_at(k2)) by {
                    if k2 == k as int {
                        assert(self.entity_map@[k2]@ =~= old_map[k2]@ + pending_tagged(
                            pending.take(i as int + 1),
                            tag_at(k2),
                        ));
                    } else {
                        assert(tag_at(k2) != t);
                    }
                }
            }
            i = i + 1;
        }
        proof {
            assert(pending.take(pending.len() as int) =~= pending);
        }
        let ghost old_entities_drained = self.entities@;
        self.entities = kept_of(&self.entities, entity_memory_pool, None);
        let mut new_map: Vec<Vec<Entity>> = Vec::with_capacity(TAG_COUNT);
        let mut k: usize = 0;
        while k < TAG_COUNT
            invariant
                k <= TAG_COUNT,
                cap == entity_memory_pool@.capacity(),
                entity_memory_pool.wf(),
                self.entity_map@.len() == TAG_COUNT,
                new_map@.len() == k,
                forall|k2: int, j: int|
                    0 <= k2 < TAG_COUNT && 0 <= j < self.entity_map@[k2]@.len()
                        ==> self.entity_map@[k2]@[j]@ < cap,
                forall|j: int|
                    0 <= j < k ==> new_map@[j]@ == kept(
                        self.entity_map@[j]@,
                        keeps(entity_memory_pool@, Some(tag_at(j))),
                    ),
            decreases TAG_COUNT - k,
        {
            let v = kept_of(&self.entity_map[k], entity_memory_pool, Some(EntityTag::from_index(k)));
            new_map.push(v);
            k = k + 1;
        }
        let ghost drained_map = self.entity_map@;
        self.entity_map = new_map;
        self.entities_to_add.clear();
        proof {
            let pool = entity_memory_pool@;
            assert forall|tag: EntityTag|
                #[trigger] self.view_of(tag) == old(self).reconciled_view(tag, pool) by {
                lemma_tag_index_inverse(tag);
            }
            assert forall|j: int| 0 <= j < self.entities@.len() implies self.entities@[j]@ < cap by {
                lemma_kept_member(old_entities_drained, keeps(pool, None), j);
            }
            assert forall|k2: int, j: int|
                0 <= k2 < TAG_COUNT && 0 <= j < self.entity_map@[k2]@.len() implies self.entity_map@[k2]@[j]@
                < cap by {
                lemma_kept_member(drained_map[k2]@, keeps(pool, Some(tag_at(k2))), j);
            }
            lemma_kept(old_entities_drained, keeps(pool, None));
            assert forall|tag: EntityTag| (#[trigger] self.view_of(tag)).no_duplicates() by {
                lemma_tag_index_inverse(tag);
                lemma_kept(drained_map[tag_index(tag)]@, keeps(pool, Some(tag)));
            }
            assert forall|tag: EntityTag, j: int|
                0 <= j < self.view_of(tag).len() implies #[trigger] keeps(pool, Some(tag))(
                self.view_of(tag)[j],
            ) by {
                lemma_tag_index_inverse(tag);
                lemma_kept_member(drained_map[tag_index(tag)]@, keeps(pool, Some(tag)), j);
            }
            if covers(*old(self), pool) {
                lemma_exact_after_update(*old(self), *self, pool);
            }
        }
    }
}

} // verus!
