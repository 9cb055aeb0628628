use vstd::prelude::*;

use crate::components::{CInput, CLifetime, CTransform};
use crate::entities::entity_memory_pool::{ComponentKind, EntityMemoryPool, added};

verus! {

/// A handle on a slot of the component store; it carries no data itself.
#[derive(Clone, Copy, Debug, PartialEq, Eq, Structural)]
pub struct Entity {
    id: usize,
}

impl View for Entity {
    type V = usize;

    closed spec fn view(&self) -> usize {
        self.id
    }
}

impl Entity {
    pub fn new(id: usize) -> (r: Entity)
        ensures
            r@ == id,
    {
        Entity { id }
    }

    pub fn id(&self) -> (r: usize)
        ensures
            r == self@,
    {
        self.id
    }

    /// The entity's transform record, if that kind was added to it.
    pub fn get_transform<'a>(&self, entity_memory_pool: &'a EntityMemoryPool) -> (r: Option<&'a CTransform>)
        requires
            entity_memory_pool.wf(),
            self@ < entity_memory_pool@.capacity(),
        ensures
            (r is Some) == entity_memory_pool@.transforms[self@ as int].active,
            r is Some ==> *r->0 == entity_memory_pool@.transforms[self@ as int],
    {
        entity_memory_pool.get_transform(self.id)
    }

    /// Mutable access to the entity's transform record, if that kind was added
    /// to it.
    pub fn get_transform_mut<'a>(&self, entity_memory_pool: &'a mut EntityMemoryPool) -> (r: Option<&'a mut CTransform>)
        requires
            old(entity_memory_pool).wf(),
            self@ < old(entity_memory_pool)@.capacity(),
        ensures
            (r is Some) == old(entity_memory_pool)@.transforms[self@ as int].active,
            r is Some ==> *r->0 == old(entity_memory_pool)@.transforms[self@ as int],
            r is Some ==> final(entity_memory_pool)@ == old(entity_memory_pool)@.with_transform(self@ as int, *final(r->0)),
            r is None ==> final(entity_memory_pool)@ == old(entity_memory_pool)@,
    {
        entity_memory_pool.get_transform_mut(self.id)
    }

    /// The entity's lifetime record, if that kind was added to it.
    pub fn get_lifetime<'a>(&self, entity_memory_pool: &'a EntityMemoryPool) -> (r: Option<&'a CLifetime>)
        requires
            entity_memory_pool.wf(),
            self@ < entity_memory_pool@.capacity(),
        ensures
            (r is Some) == entity_memory_pool@.lifetimes[self@ as int].active,
            r is Some ==> *r->0 == entity_memory_pool@.lifetimes[self@ as int],
    {
        entity_memory_pool.get_lifetime(self.id)
    }

    /// Mutable access to the entity's lifetime record, if that kind was added
    /// to it.
    pub fn get_lifetime_mut<'a>(&self, entity_memory_pool: &'a mut EntityMemoryPool) -> (r: Option<&'a mut CLifetime>)
        requires
            old(entity_memory_pool).wf(),
            self@ < old(entity_memory_pool)@.capacity(),
        ensures
            (r is Some) == old(entity_memory_pool)@.lifetimes[self@ as int].active,
            r is Some ==> *r->0 == old(entity_memory_pool)@.lifetimes[self@ as int],
            r is Some ==> final(entity_memory_pool)@ == old(entity_memory_pool)@.with_lifetime(self@ as int, *final(r->0)),
            r is None ==> final(entity_memory_pool)@ == old(entity_memory_pool)@,
    {
        entity_memory_pool.get_lifetime_mut(self.id)
    }

    /// The entity's input record, if that kind was added to it.
    pub fn get_input<'a>(&self, entity_memory_pool: &'a EntityMemoryPool) -> (r: Option<&'a CInput>)
        requires
            entity_memory_pool.wf(),
            self@ < entity_memory_pool@.capacity(),
        ensures
            (r is Some) == entity_memory_pool@.inputs[self@ as int].active,
            r is Some ==> *r->0 == entity_memory_pool@.inputs[self@ as int],
    {
        entity_memory_pool.get_input(self.id)
    }

    /// Mutable access to the entity's input record, if that kind was added
    /// to it.
    pub fn get_input_mut<'a>(&self, entity_memory_pool: &'a mut EntityMemoryPool) -> (r: Option<&'a mut CInput>)
        requires
            old(entity_memory_pool).wf(),
            self@ < old(entity_memory_pool)@.capacity(),
        ensures
            (r is Some) == old(entity_memory_pool)@.inputs[self@ as int].active,
            r is Some ==> *r->0 == old(entity_memory_pool)@.inputs[self@ as int],
            r is Some ==> final(entity_memory_pool)@ == old(entity_memory_pool)@.with_input(self@ as int, *final(r->0)),
            r is None ==> final(entity_memory_pool)@ == old(entity_memory_pool)@,
    {
        entity_memory_pool.get_input_mut(self.id)
    }

    /// Marks the entity's slot inactive.
    pub fn destroy(&self, entity_memory_pool: &mut EntityMemoryPool)
        requires
            old(entity_memory_pool).wf(),
            self@ < old(entity_memory_pool)@.active.len(),
        ensures
            final(entity_memory_pool).wf(),
            final(entity_memory_pool)@ == old(entity_memory_pool)@.with_active(self@ as int, false),
    {
        entity_memory_pool.destroy_entity(self.id);
    }

    /// Resets the record of the given kind in the entity's slot.
    pub fn add_component(&self, kind: ComponentKind, entity_memory_pool: &mut EntityMemoryPool)
        requires
            old(entity_memory_pool).wf(),
            self@ < old(entity_memory_pool)@.active.len(),
        ensures
            final(entity_memory_pool).wf(),
            final(entity_memory_pool)@ == added(old(entity_memory_pool)@, self@ as int, kind),
    {
        entity_memory_pool.add_component(self.id, kind);
    }
}

pub proof fn lemma_view_injective(a: Entity, b: Entity)
    ensures
        a@ == b@ <==> a == b,
{
}

} // verus!
