use vstd::prelude::*;

pub mod entity;
pub mod entity_manager;
pub mod entity_memory_pool;

verus! {

/// Coarse classification of an entity; each tag has its own view in the
/// entity manager.
#[derive(Clone, Copy, Debug, PartialEq, Eq, Hash, Structural)]
pub enum EntityTag {
    NoTag,
    Player,
    Bullet,
    Enemy,
    Platform,
    Goal,
}

/// Number of tags.
pub const TAG_COUNT: usize = 6;

/// Position of a tag in the manager's table of views.
pub open spec fn tag_index(tag: EntityTag) -> int {
    match tag {
        EntityTag::NoTag => 0,
        EntityTag::Player => 1,
        EntityTag::Bullet => 2,
        EntityTag::Enemy => 3,
        EntityTag::Platform => 4,
        EntityTag::Goal => 5,
    }
}

/// The tag at position `k` of the table of views.
pub open spec fn tag_at(k: int) -> EntityTag {
    if k == 0 {
        EntityTag::NoTag
    } else if k == 1 {
        EntityTag::Player
    } else if k == 2 {
        EntityTag::Bullet
    } else if k == 3 {
        EntityTag::Enemy
    } else if k == 4 {
        EntityTag::Platform
    } else {
        EntityTag::Goal
    }
}

pub proof fn lemma_tag_index_inverse(tag: EntityTag)
    ensures
        0 <= tag_index(tag) < TAG_COUNT,
        tag_at(tag_index(tag)) == tag,
{
}

impl EntityTag {
    pub fn index(&self) -> (r: usize)
        ensures
            r == tag_index(*self),
    {
        match self {
            EntityTag::NoTag => 0,
            EntityTag::Player => 1,
            EntityTag::Bullet => 2,
            EntityTag::Enemy => 3,
            EntityTag::Platform => 4,
            EntityTag::Goal => 5,
        }
    }

    pub fn from_index(k: usize) -> (r: EntityTag)
        requires
            k < TAG_COUNT,
        ensures
            r == tag_at(k as int),
            tag_index(r) == k,
    {
        if k == 0 {
            EntityTag::NoTag
        } else if k == 1 {
            EntityTag::Player
        } else if k == 2 {
            EntityTag::Bullet
        } else if k == 3 {
            EntityTag::Enemy
        } else if k == 4 {
            EntityTag::Platform
        } else {
            EntityTag::Goal
        }
    }
}

} // verus!
