use vstd::prelude::*;

use crate::components::{CInput, CLifetime, CTransform, Component, button_up, zero_vec};
use crate::entities::entity::Entity;
use crate::entities::EntityTag;
use crate::geometry::PIXEL;

verus! {

/// The component kinds the store holds.
#[derive(Clone, Copy, Debug, PartialEq, Eq, Structural)]
pub enum ComponentKind {
    Transform,
    Lifetime,
    Input,
}

/// Fixed-capacity structure-of-arrays storage: one record of each kind, a
/// tag and an active flag per slot, indexed by entity id.
pub struct EntityMemoryPool {
    transforms: Vec<CTransform>,
    lifetimes: Vec<CLifetime>,
    inputs: Vec<CInput>,
    tags: Vec<EntityTag>,
    active: Vec<bool>,
}

/// What the store holds, slot by slot.
#[verifier::ext_equal]
pub struct PoolView {
    pub transforms: Seq<CTransform>,
    pub lifetimes: Seq<CLifetime>,
    pub inputs: Seq<CInput>,
    pub tags: Seq<EntityTag>,
    pub active: Seq<bool>,
}

impl PoolView {
    pub open spec fn capacity(&self) -> int {
        self.active.len() as int
    }

    pub open spec fn wf(&self) -> bool {
        &&& self.transforms.len() == self.active.len()
        &&& self.lifetimes.len() == self.active.len()
        &&& self.inputs.len() == self.active.len()
        &&& self.tags.len() == self.active.len()
    }

    pub open spec fn with_active(&self, id: int, a: bool) -> PoolView {
        PoolView { active: self.active.update(id, a), ..*self }
    }

    pub open spec fn with_tag(&self, id: int, tag: EntityTag) -> PoolView {
        PoolView { tags: self.tags.update(id, tag), ..*self }
    }

    pub open spec fn with_transform(&self, id: int, t: CTransform) -> PoolView {
        PoolView { transforms: self.transforms.update(id, t), ..*self }
    }

    pub open spec fn with_lifetime(&self, id: int, l: CLifetime) -> PoolView {
        PoolView { lifetimes: self.lifetimes.update(id, l), ..*self }
    }

    pub open spec fn with_input(&self, id: int, i: CInput) -> PoolView {
        PoolView { inputs: self.inputs.update(id, i), ..*self }
    }

    /// Every slot from `s` on is inactive.
    pub open spec fn free_from(&self, s: int) -> bool {
        &&& 0 <= s <= self.capacity()
        &&& forall|j: int| s <= j < self.capacity() ==> !self.active[j]
    }

    /// Exactly the slots below `s` are active.
    pub open spec fn dense_from(&self, s: int) -> bool {
        &&& 0 <= s <= self.capacity()
        &&& forall|j: int| 0 <= j < self.capacity() ==> (self.active[j] <==> j < s)
    }

    pub open spec fn has_free_slot(&self) -> bool {
        exists|i: int| 0 <= i < self.capacity() && !self.active[i]
    }

    /// `id` is the lowest inactive slot.
    pub open spec fn is_first_free(&self, id: int) -> bool {
        &&& 0 <= id < self.capacity()
        &&& !self.active[id]
        &&& forall|j: int| 0 <= j < id ==> self.active[j]
    }
}

/// The record a transform holds right after it was added.
pub open spec fn transform_default() -> CTransform {
    CTransform {
        active: true,
        position: zero_vec(),
        prev_position: zero_vec(),
        velocity: zero_vec(),
        acceleration: zero_vec(),
        size: zero_vec(),
        half_size: zero_vec(),
        max_speed: 0,
        scale: PIXEL,
        grounded: false,
    }
}

/// The record a lifetime holds right after it was added.
pub open spec fn lifetime_default() -> CLifetime {
    CLifetime { active: true, lifetime_duration: 0, lifetime_timer: 0 }
}

/// The record an input holds right after it was added.
pub open spec fn input_default() -> CInput {
    CInput {
        active: true,
        up: button_up(),
        down: button_up(),
        left: button_up(),
        right: button_up(),
        space: button_up(),
    }
}

/// The store after the record of `kind` at `id` was reset.
pub open spec fn added(v: PoolView, id: int, kind: ComponentKind) -> PoolView {
    match kind {
        ComponentKind::Transform => v.with_transform(id, transform_default()),
        ComponentKind::Lifetime => v.with_lifetime(id, lifetime_default()),
        ComponentKind::Input => v.with_input(id, input_default()),
    }
}

impl View for EntityMemoryPool {
    type V = PoolView;

    closed spec fn view(&self) -> PoolView {
        PoolView {
            transforms: self.transforms@,
            lifetimes: self.lifetimes@,
            inputs: self.inputs@,
            tags: self.tags@,
            active: self.active@,
        }
    }
}

impl EntityMemoryPool {
    pub open spec fn wf(&self) -> bool {
        self@.wf()
    }

    /// A store of `entity_count` inactive slots, untagged.
    pub fn new(entity_count: usize) -> (r: EntityMemoryPool)
        ensures
            r.wf(),
            r@.capacity() == entity_count,
            forall|i: int|
                0 <= i < entity_count ==> !r@.active[i] && r@.tags[i] == EntityTag::NoTag
                    && !r@.transforms[i].active && !r@.lifetimes[i].active && !r@.inputs[i].active,
    {
        let mut transforms: Vec<CTransform> = Vec::with_capacity(entity_count);
        let mut lifetimes: Vec<CLifetime> = Vec::with_capacity(entity_count);
        let mut inputs: Vec<CInput> = Vec::with_capacity(entity_count);
        let mut tags: Vec<EntityTag> = Vec::with_capacity(entity_count);
        let mut active: Vec<bool> = Vec::with_capacity(entity_count);
        let mut n: usize = 0;
        while n < entity_count
            invariant
                n <= entity_count,
                transforms.len() == n,
                lifetimes.len() == n,
                inputs.len() == n,
                tags.len() == n,
                active.len() == n,
                forall|i: int|
                    0 <= i < n ==> !active@[i] && tags@[i] == EntityTag::NoTag
                        && !transforms@[i].active && !lifetimes@[i].active && !inputs@[i].active,
            decreases entity_count - n,
        {
            transforms.push(CTransform::new());
            lifetimes.push(CLifetime::new(0));
            inputs.push(CInput::new());
            tags.push(EntityTag::NoTag);
            active.push(false);
            n = n + 1;
        }
        EntityMemoryPool { transforms, lifetimes, inputs, tags, active }
    }

    /// The transform record at `id`, if that kind was added there; absent
    /// otherwise.
    pub fn get_transform(&self, id: usize) -> (r: Option<&CTransform>)
        requires
            id < self@.capacity(),
            self.wf(),
        ensures
            (r is Some) == self@.transforms[id as int].active,
            r is Some ==> *r->0 == self@.transforms[id as int],
    {
        if self.transforms[id].active {
            Some(&self.transforms[id])
        } else {
            None
        }
    }

    /// Mutable access to the transform record at `id`, if that kind was added
    /// there; absent otherwise.
    pub fn get_transform_mut(&mut self, id: usize) -> (r: Option<&mut CTransform>)
        requires
            id < old(self)@.capacity(),
            old(self).wf(),
        ensures
            (r is Some) == old(self)@.transforms[id as int].active,
            r is Some ==> *r->0 == old(self)@.transforms[id as int],
            r is Some ==> final(self)@ == old(self)@.with_transform(id as int, *final(r->0)),
            r is None ==> final(self)@ == old(self)@,
    {
        if self.transforms[id].active {
            Some(&mut self.transforms[id])
        } else {
            None
        }
    }

    /// The lifetime record at `id`, if that kind was added there; absent
    /// otherwise.
    pub fn get_lifetime(&self, id: usize) -> (r: Option<&CLifetime>)
        requires
            id < self@.capacity(),
            self.wf(),
        ensures
            (r is Some) == self@.lifetimes[id as int].active,
            r is Some ==> *r->0 == self@.lifetimes[id as int],
    {
        if self.lifetimes[id].active {
            Some(&self.lifetimes[id])
        } else {
            None
        }
    }

    /// Mutable access to the lifetime record at `id`, if that kind was added
    /// there; absent otherwise.
    pub fn get_lifetime_mut(&mut self, id: usize) -> (r: Option<&mut CLifetime>)
        requires
            id < old(self)@.capacity(),
            old(self).wf(),
        ensures
            (r is Some) == old(self)@.lifetimes[id as int].active,
            r is Some ==> *r->0 == old(self)@.lifetimes[id as int],
            r is Some ==> final(self)@ == old(self)@.with_lifetime(id as int, *final(r->0)),
            r is None ==> final(self)@ == old(self)@,
    {
        if self.lifetimes[id].active {
            Some(&mut self.lifetimes[id])
        } else {
            None
        }
    }

    /// The input record at `id`, if that kind was added there; absent
    /// otherwise.
    pub fn get_input(&self, id: usize) -> (r: Option<&CInput>)
        requires
            id < self@.capacity(),
            self.wf(),
        ensures
            (r is Some) == self@.inputs[id as int].active,
            r is Some ==> *r->0 == self@.inputs[id as int],
    {
        if self.inputs[id].active {
            Some(&self.inputs[id])
        } else {
            None
        }
    }

    /// Mutable access to the input record at `id`, if that kind was added
    /// there; absent otherwise.
    pub fn get_input_mut(&mut self, id: usize) -> (r: Option<&mut CInput>)
        requires
            id < old(self)@.capacity(),
            old(self).wf(),
        ensures
            (r is Some) == old(self)@.inputs[id as int].active,
            r is Some ==> *r->0 == old(self)@.inputs[id as int],
            r is Some ==> final(self)@ == old(self)@.with_input(id as int, *final(r->0)),
            r is None ==> final(self)@ == old(self)@,
    {
        if self.inputs[id].active {
            Some(&mut self.inputs[id])
        } else {
            None
        }
    }

    pub fn get_tag(&self, id: usize) -> (r: &EntityTag)
        requires
            id < self@.capacity(),
            self.wf(),
        ensures
            *r == self@.tags[id as int],
    {
        &self.tags[id]
    }

    pub fn get_entity_count(&self) -> (r: usize)
        ensures
            r == self@.capacity(),
    {
        self.active.len()
    }

    pub fn is_active(&self, id: usize) -> (r: bool)
        requires
            id < self@.capacity(),
        ensures
            r == self@.active[id as int],
    {
        self.active[id]
    }

    /// The lowest inactive slot, if any.
    pub fn get_next_available_id(&self) -> (r: Option<usize>)
        ensures
            (r is None) == !self@.has_free_slot(),
            (r is Some) ==> self@.is_first_free(r->0 as int),
    {
        let mut i: usize = 0;
        while i < self.active.len()
            invariant
                i <= self.active.len(),
                forall|j: int| 0 <= j < i ==> self.active@[j],
            decreases self.active.len() - i,
        {
            if !self.active[i] {
                proof {
                    assert(!self@.active[i as int]);
                }
                return Some(i);
            }
            i = i + 1;
        }
        None
    }

    /// Activates the lowest inactive slot with the given tag. Ids are reused
    /// first-fit: every lower slot is active, and the slot chosen was not.
    pub fn add_entity(&mut self, tag: EntityTag) -> (r: Entity)
        requires
            old(self).wf(),
            old(self)@.has_free_slot(),
        ensures
            final(self).wf(),
            old(self)@.is_first_free(r@ as int),
            final(self)@ == old(self)@.with_active(r@ as int, true).with_tag(r@ as int, tag),
    {
        let id = match self.get_next_available_id() {
            Some(id) => id,
            None => {
                proof {
                    assert(false);
                }
                0
            },
        };
        self.tags.set(id, tag);
        self.active.set(id, true);
        Entity::new(id)
    }

    /// Resets the record of `kind` at `id` to its defaults, marking it active.
    pub fn add_component(&mut self, id: usize, kind: ComponentKind)
        requires
            old(self).wf(),
            id < old(self)@.capacity(),
        ensures
            final(self).wf(),
            final(self)@ == added(old(self)@, id as int, kind),
    {
        match kind {
            ComponentKind::Transform => {
                self.transforms[id].reset();
            },
            ComponentKind::Lifetime => {
                self.lifetimes[id].reset();
            },
            ComponentKind::Input => {
                self.inputs[id].reset();
            },
        }
    }

    /// Marks the slot inactive; its records keep their data.
    pub fn destroy_entity(&mut self, id: usize)
        requires
            old(self).wf(),
            id < old(self)@.capacity(),
        ensures
            final(self).wf(),
            final(self)@ == old(self)@.with_active(id as int, false),
    {
        self.active.set(id, false);
    }
}

} // verus!
