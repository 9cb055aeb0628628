use vstd::prelude::*;

use crate::collision::{Adjustment, Solid, adjustment_for, compute_adjustment, lemma_adjustment_bounds};
use crate::components::{Button, CInput, CTransform};
use crate::entities::EntityTag;
use crate::entities::entity::Entity;
use crate::entities::entity_manager::{
    EntityManager,
    covers,
    lemma_covers_after_destroy,
    lemma_covers_initially,
    pending_entities,
    views_exact,
    keeps,
    kept,
    lemma_kept_member,
    pending_names,
    pending_tagged,
};
use crate::entities::entity_memory_pool::{ComponentKind, EntityMemoryPool, PoolView};
use crate::geometry::{
    PIXEL,
    Vec2,
    box_overlap,
    clamp_i64,
    clamp_to_i64,
    div_toward_zero,
    half_of,
    intersects,
};
use crate::levels::{Level, PlatformRect};
use crate::movement::{
    MovementConfig,
    PlayerTimers,
    buffered,
    ground_jump_due,
    move_player,
    moved,
    moved_timers,
    signed,
    standard_config,
    wall_jump_due,
};

verus! {

/// Slots in the component store of a world.
pub const ENTITY_CAPACITY: usize = 20_000;

/// Every slot of the component store is in use.
#[derive(Clone, Copy, Debug, PartialEq, Eq, Structural)]
pub struct CapacityExhausted;

/// The sound cues of a movement frame.
#[derive(Clone, Copy, Debug, PartialEq, Eq, Structural)]
pub struct FrameCues {
    pub jump: bool,
    pub death: bool,
}

/// The game state: store, registry, the player and goal entities, the
/// player's timers and the level being played.
pub struct World {
    pub entity_manager: EntityManager,
    pub entity_memory_pool: EntityMemoryPool,
    pub player: Entity,
    pub goal: Entity,
    pub player_spawn_position: Vec2,
    /// Height of the screen, fixed-point; below it the player dies.
    pub screen_height: i64,
    pub timers: PlayerTimers,
    pub config: MovementConfig,
    pub level_index: usize,
    /// The player overlapped the goal in the last collision frame.
    pub goal_reached: bool,
    pub levels: Vec<Level>,
}

/// The timers with nothing running.
pub open spec fn cleared_timers() -> PlayerTimers {
    PlayerTimers {
        jump_input_timer: 0,
        grounded_timer: 0,
        wall_contact_timer: 0,
        wall_jump_physics: false,
    }
}

/// The transform put back at `start`, at rest.
pub open spec fn respawned(t: CTransform, start: Vec2) -> CTransform {
    CTransform {
        position: start,
        prev_position: start,
        velocity: Vec2 { x: 0, y: 0 },
        ..t
    }
}

/// The player is below the lower edge of the screen.
pub open spec fn falls_out(t: CTransform, screen_height: i64) -> bool {
    t.position.y > screen_height - t.half_size.y
}

/// The solid box of an entity's transform.
pub open spec fn solid_of(pool: PoolView, e: Entity) -> Solid {
    Solid {
        position: pool.transforms[e@ as int].position,
        half_size: pool.transforms[e@ as int].half_size,
    }
}

/// The solid boxes of the entities, in order; an entity without a
/// transform is skipped.
pub open spec fn solids_of(view: Seq<Entity>, pool: PoolView) -> Seq<Solid>
    decreases view.len(),
{
    if view.len() == 0 {
        Seq::empty()
    } else if pool.transforms[view.last()@ as int].active {
        solids_of(view.drop_last(), pool).push(solid_of(pool, view.last()))
    } else {
        solids_of(view.drop_last(), pool)
    }
}

/// The player's transform once `adj` is applied: the position moves by the
/// adjustment; a vertical correction stops vertical motion and grounds a
/// player that was falling; a horizontal one stops horizontal motion.
pub open spec fn landed(t: CTransform, adj: Adjustment) -> CTransform {
    let shifted = CTransform {
        grounded: false,
        position: Vec2 {
            x: clamp_i64(t.position.x + adj.x) as i64,
            y: clamp_i64(t.position.y + adj.y) as i64,
        },
        ..t
    };
    let after_y = if adj.y != 0 {
        CTransform {
            grounded: t.velocity.y > 0,
            velocity: Vec2 { y: 0, ..shifted.velocity },
            ..shifted
        }
    } else {
        shifted
    };
    if adj.x != 0 {
        CTransform { velocity: Vec2 { x: 0, ..after_y.velocity }, ..after_y }
    } else {
        after_y
    }
}

/// The timers once `adj` is applied: landing while falling re-arms the
/// grounded timer and ends wall-jump mode; a horizontal correction re-arms
/// the wall-contact timer, signed toward the wall.
pub open spec fn landed_timers(
    t: CTransform,
    timers: PlayerTimers,
    adj: Adjustment,
    cfg: MovementConfig,
) -> PlayerTimers {
    let after_y = if adj.y != 0 && t.velocity.y > 0 {
        PlayerTimers { grounded_timer: cfg.grounded_duration, wall_jump_physics: false, ..timers }
    } else {
        timers
    };
    if adj.x != 0 {
        PlayerTimers {
            wall_contact_timer: signed(cfg.wall_contact_duration as int, -adj.x) as i32,
            ..after_y
        }
    } else {
        after_y
    }
}

proof fn lemma_dense_unique(pool: PoolView, a: int, b: int)
    requires
        pool.dense_from(a),
        pool.dense_from(b),
    ensures
        a == b,
{
    if a < b {
        assert(pool.active[a] <==> a < a);
    } else if b < a {
        assert(pool.active[b] <==> b < b);
    }
}

/// One frame seen from the timers: the collision frame `f.1`, `f.2` (the
/// player's transform and its adjustment) closes the previous frame, then the
/// movement frame with input `f.0` runs and the timers tick.
pub open spec fn frame_step(timers: PlayerTimers, f: (CInput, CTransform, Adjustment), cfg: MovementConfig) -> PlayerTimers {
    moved_timers(landed_timers(f.1, timers, f.2, cfg), f.0, cfg).ticked()
}

/// The timers after the given frames, in order.
pub open spec fn frames_after(
    timers: PlayerTimers,
    frames: Seq<(CInput, CTransform, Adjustment)>,
    cfg: MovementConfig,
) -> PlayerTimers
    decreases frames.len(),
{
    if frames.len() == 0 {
        timers
    } else {
        frame_step(frames_after(timers, frames.drop_last(), cfg), frames.last(), cfg)
    }
}

/// A frame with no jump press, no wall contact and no landing while falling.
pub open spec fn is_quiet(f: (CInput, CTransform, Adjustment)) -> bool {
    &&& !f.0.space.pressed
    &&& f.2.x == 0
    &&& !(f.2.y != 0 && f.1.velocity.y > 0)
}

proof fn lemma_quiet_frames(
    timers: PlayerTimers,
    frames: Seq<(CInput, CTransform, Adjustment)>,
    cfg: MovementConfig,
)
    requires
        timers.grounded_timer == 0,
        timers.wall_contact_timer == 0,
        timers.jump_input_timer >= frames.len(),
        forall|i: int| 0 <= i < frames.len() ==> is_quiet(#[trigger] frames[i]),
    ensures
        frames_after(timers, frames, cfg).grounded_timer == 0,
        frames_after(timers, frames, cfg).wall_contact_timer == 0,
        frames_after(timers, frames, cfg).jump_input_timer == timers.jump_input_timer - frames.len(),
    decreases frames.len(),
{
    if frames.len() > 0 {
        let d = frames.drop_last();
        assert forall|i: int| 0 <= i < d.len() implies is_quiet(#[trigger] d[i]) by {
            assert(d[i] == frames[i]);
        }
        lemma_quiet_frames(timers, d, cfg);
        assert(is_quiet(frames[frames.len() - 1]));
    }
}

/// A jump press is buffered. Pressed in the air and away from walls, then
/// followed by frames without a press, a wall contact or a landing (those
/// are the frames in which no jump becomes due), then a landing while
/// falling: the next movement frame starts a ground jump, as long as at
/// most `jump_input_duration - 2` frames lie between the press frame and
/// the frame of the landing.
pub proof fn lemma_buffered_jump_after_landing(
    cfg: MovementConfig,
    timers: PlayerTimers,
    press: CInput,
    quiet: Seq<(CInput, CTransform, Adjustment)>,
    falling: CTransform,
    adj: Adjustment,
    next: CInput,
)
    requires
        cfg.wf(),
        cfg.grounded_duration > 0,
        quiet.len() + 2 <= cfg.jump_input_duration,
        press.space.pressed,
        timers.grounded_timer == 0,
        timers.wall_contact_timer == 0,
        forall|i: int| 0 <= i < quiet.len() ==> is_quiet(#[trigger] quiet[i]),
        adj.y != 0,
        falling.velocity.y > 0,
    ensures
        ground_jump_due(
            buffered(
                landed_timers(
                    falling,
                    frames_after(moved_timers(timers, press, cfg).ticked(), quiet, cfg),
                    adj,
                    cfg,
                ),
                next,
                cfg,
            ),
        ),
{
    let t1 = moved_timers(timers, press, cfg).ticked();
    assert(t1.jump_input_timer == cfg.jump_input_duration - 1);
    lemma_quiet_frames(t1, quiet, cfg);
}

proof fn lemma_pending_entities_index(p: Seq<(Entity, EntityTag)>)
    ensures
        pending_entities(p).len() == p.len(),
        forall|j: int| 0 <= j < p.len() ==> #[trigger] pending_entities(p)[j] == p[j].0,
    decreases p.len(),
{
    if p.len() > 0 {
        lemma_pending_entities_index(p.drop_last());
        assert forall|j: int| 0 <= j < p.len() implies #[trigger] pending_entities(p)[j] == p[j].0 by {
            if j < p.len() - 1 {
                assert(p.drop_last()[j] == p[j]);
            }
        }
    }
}

proof fn lemma_pending_all_tagged(p: Seq<(Entity, EntityTag)>, tag: EntityTag)
    requires
        forall|j: int| 0 <= j < p.len() ==> p[j].1 == tag,
    ensures
        pending_tagged(p, tag) == pending_entities(p),
    decreases p.len(),
{
    if p.len() > 0 {
        let d = p.drop_last();
        assert forall|j: int| 0 <= j < d.len() implies d[j].1 == tag by {
            assert(d[j] == p[j]);
        }
        lemma_pending_all_tagged(d, tag);
        assert(p[p.len() - 1] == p.last());
    }
}

/// A sequence without duplicates whose entries all qualify is kept whole.
proof fn lemma_kept_all(s: Seq<Entity>, p: spec_fn(Entity) -> bool)
    requires
        s.no_duplicates(),
        forall|j: int| 0 <= j < s.len() ==> p(s[j]),
    ensures
        kept(s, p) == s,
    decreases s.len(),
{
    if s.len() > 0 {
        let d = s.drop_last();
        assert forall|j: int| 0 <= j < d.len() implies p(d[j]) by {
            assert(d[j] == s[j]);
        }
        assert(d.no_duplicates()) by {
            assert forall|a: int, b: int| 0 <= a < d.len() && 0 <= b < d.len() && a != b implies d[a]
                != d[b] by {
                assert(d[a] == s[a] && d[b] == s[b]);
            }
        }
        lemma_kept_all(d, p);
        if d.contains(s.last()) {
            let j = choose|j: int| 0 <= j < d.len() && d[j] == s.last();
            assert(s[j] == s[s.len() - 1]);
        }
        assert(p(s[s.len() - 1]));
        assert(d.push(s.last()) =~= s);
    }
}

/// Platforms waiting on distinct active slots tagged `Platform` make up an
/// empty platform view after reconciliation, in order.
proof fn lemma_waiting_platforms_join(m: EntityManager, pool: PoolView)
    requires
        m.view_of(EntityTag::Platform).len() == 0,
        forall|j: int|
            0 <= j < m.pending().len() ==> #[trigger] m.pending()[j].1 == EntityTag::Platform
                && m.pending()[j].0@ < pool.capacity() && pool.active[m.pending()[j].0@ as int]
                && pool.tags[m.pending()[j].0@ as int] == EntityTag::Platform,
        forall|a: int, b: int|
            0 <= a < m.pending().len() && 0 <= b < m.pending().len() && a != b ==> m.pending()[a].0@
                != m.pending()[b].0@,
    ensures
        m.reconciled_view(EntityTag::Platform, pool) == pending_entities(m.pending()),
{
    let p = m.pending();
    assert forall|j: int| 0 <= j < p.len() implies p[j].1 == EntityTag::Platform by {
        assert(p[j].1 == EntityTag::Platform);
    }
    lemma_pending_all_tagged(p, EntityTag::Platform);
    lemma_pending_entities_index(p);
    let s = pending_entities(p);
    assert(m.view_of(EntityTag::Platform) + s =~= s);
    assert forall|a: int, b: int| 0 <= a < s.len() && 0 <= b < s.len() && a != b implies s[a] != s[b] by {
        assert(s[a] == p[a].0 && s[b] == p[b].0);
    }
    assert forall|j: int| 0 <= j < s.len() implies keeps(pool, Some(EntityTag::Platform))(s[j]) by {
        assert(s[j] == p[j].0);
        assert(p[j].1 == EntityTag::Platform);
    }
    lemma_kept_all(s, keeps(pool, Some(EntityTag::Platform)));
}

/// No entity waits to join the platform view.
pub open spec fn no_platform_pending(p: Seq<(Entity, EntityTag)>) -> bool {
    forall|j: int| 0 <= j < p.len() ==> p[j].1 != EntityTag::Platform
}

/// The level after `index`. After the last level play goes back to the
/// first: the game loops over its levels.
pub open spec fn next_level(index: int, count: int) -> int {
    if index + 1 < count {
        index + 1
    } else {
        0
    }
}

proof fn lemma_pending_tagged_members(p: Seq<(Entity, EntityTag)>, tag: EntityTag, a: usize, b: usize)
    requires
        forall|i: int| 0 <= i < p.len() && p[i].1 == tag ==> p[i].0@ != a && p[i].0@ != b,
    ensures
        forall|i: int|
            0 <= i < pending_tagged(p, tag).len() ==> pending_tagged(p, tag)[i]@ != a
                && pending_tagged(p, tag)[i]@ != b,
    decreases p.len(),
{
    if p.len() > 0 {
        let rest = p.drop_last();
        assert forall|i: int| 0 <= i < rest.len() && rest[i].1 == tag implies rest[i].0@ != a && rest[i].0@ != b by {
            assert(rest[i] == p[i]);
        }
        lemma_pending_tagged_members(rest, tag, a, b);
        let pt = pending_tagged(p, tag);
        let prev = pending_tagged(rest, tag);
        assert forall|i: int| 0 <= i < pt.len() implies pt[i]@ != a && pt[i]@ != b by {
            if p.last().1 == tag && i == prev.len() {
                assert(pt[i] == p[p.len() - 1].0);
            } else {
                assert(pt[i] == prev[i]);
            }
        }
    }
}

/// Reconciliation keeps in the platform view only entries that were in it
/// or waiting to join it.
proof fn lemma_reconciled_platforms_apart(m: EntityManager, pool: PoolView, a: usize, b: usize)
    requires
        forall|i: int|
            0 <= i < m.view_of(EntityTag::Platform).len() ==> m.view_of(EntityTag::Platform)[i]@ != a
                && m.view_of(EntityTag::Platform)[i]@ != b,
        forall|i: int|
            0 <= i < m.pending().len() && m.pending()[i].1 == EntityTag::Platform ==> m.pending()[i].0@ != a
                && m.pending()[i].0@ != b,
    ensures
        forall|i: int|
            0 <= i < m.reconciled_view(EntityTag::Platform, pool).len() ==> m.reconciled_view(
                EntityTag::Platform,
                pool,
            )[i]@ != a && m.reconciled_view(EntityTag::Platform, pool)[i]@ != b,
{
    let pview = m.view_of(EntityTag::Platform);
    let pt = pending_tagged(m.pending(), EntityTag::Platform);
    lemma_pending_tagged_members(m.pending(), EntityTag::Platform, a, b);
    let v = m.reconciled_view(EntityTag::Platform, pool);
    assert forall|i: int| 0 <= i < v.len() implies v[i]@ != a && v[i]@ != b by {
        lemma_kept_member(pview + pt, keeps(pool, Some(EntityTag::Platform)), i);
        let j = choose|j: int| 0 <= j < (pview + pt).len() && (pview + pt)[j] == v[i];
        if j < pview.len() {
            assert(pview[j] == v[i]);
        } else {
            assert(pt[j - pview.len()] == v[i]);
        }
    }
}

/// Nothing is kept when no entry qualifies.
proof fn lemma_none_kept(s: Seq<Entity>, p: spec_fn(Entity) -> bool)
    requires
        forall|i: int| 0 <= i < s.len() ==> !p(s[i]),
    ensures
        kept(s, p).len() == 0,
{
    if kept(s, p).len() > 0 {
        lemma_kept_member(s, p, 0);
        let j = choose|j: int| 0 <= j < s.len() && s[j] == kept(s, p)[0];
    }
}

/// No pending pair with tag `tag` leaves nothing to add under it.
proof fn lemma_pending_tagged_empty(p: Seq<(Entity, EntityTag)>, tag: EntityTag)
    requires
        forall|j: int| 0 <= j < p.len() ==> p[j].1 != tag,
    ensures
        pending_tagged(p, tag).len() == 0,
    decreases p.len(),
{
    if p.len() > 0 {
        let d = p.drop_last();
        assert forall|j: int| 0 <= j < d.len() implies d[j].1 != tag by {
            assert(d[j] == p[j]);
        }
        lemma_pending_tagged_empty(d, tag);
        assert(p[p.len() - 1] == p.last());
    }
}

impl World {
    /// No platform entry, in the view or waiting, names the player's or the
    /// goal's slot.
    pub open spec fn platforms_apart(&self) -> bool {
        let view = self.entity_manager.view_of(EntityTag::Platform);
        let pending = self.entity_manager.pending();
        &&& forall|i: int| 0 <= i < view.len() ==> view[i]@ != self.player@ && view[i]@ != self.goal@
        &&& forall|i: int|
            0 <= i < pending.len() && pending[i].1 == EntityTag::Platform ==> pending[i].0@ != self.player@
                && pending[i].0@ != self.goal@
    }

    /// The registry waits to add, in order, one platform entity per
    /// rectangle, each active with a transform of that rectangle.
    /// Every waiting entity is a platform on its own active slot, which
    /// the store tags `Platform`.
    pub open spec fn waiting_platforms(&self) -> bool {
        let pending = self.entity_manager.pending();
        let pool = self.entity_memory_pool@;
        &&& forall|j: int|
            0 <= j < pending.len() ==> #[trigger] pending[j].1 == EntityTag::Platform && pending[j].0@
                < pool.capacity() && pool.active[pending[j].0@ as int] && pool.tags[pending[j].0@ as int]
                == EntityTag::Platform
        &&& forall|a: int, b: int|
            0 <= a < pending.len() && 0 <= b < pending.len() && a != b ==> pending[a].0@ != pending[b].0@
    }

    pub open spec fn platforms_pending(&self, rects: Seq<PlatformRect>) -> bool {
        let pending = self.entity_manager.pending();
        let pool = self.entity_memory_pool@;
        &&& pending.len() == rects.len()
        &&& self.waiting_platforms()
        &&& forall|j: int|
            0 <= j < rects.len() ==> #[trigger] pending[j].1 == EntityTag::Platform
                && pool.active[pending[j].0@ as int]
                && pool.transforms[pending[j].0@ as int].position == rects[j].position
                && pool.transforms[pending[j].0@ as int].size == rects[j].size
                && pool.transforms[pending[j].0@ as int].half_size == (Vec2 {
                    x: div_toward_zero(rects[j].size.x as int, 2) as i64,
                    y: div_toward_zero(rects[j].size.y as int, 2) as i64,
                })
    }

    pub open spec fn wf(&self) -> bool {
        let pool = self.entity_memory_pool@;
        &&& pool.wf()
        &&& self.entity_manager.wf()
        &&& self.entity_manager.ids_below(pool.capacity())
        &&& covers(self.entity_manager, pool)
        &&& self.player@ < pool.capacity()
        &&& self.goal@ < pool.capacity()
        &&& self.player@ != self.goal@
        &&& pool.active[self.player@ as int]
        &&& pool.active[self.goal@ as int]
        &&& pool.transforms[self.player@ as int].active
        &&& pool.inputs[self.player@ as int].active
        &&& pool.transforms[self.goal@ as int].active
        &&& self.platforms_apart()
        &&& self.config.wf()
        &&& self.levels@.len() > 0
        &&& self.level_index < self.levels@.len()
    }

    /// Each entry of `ov` names a slot that is inactive or waits to join as
    /// a new entity.
    pub open spec fn old_platforms_gone(&self, ov: Seq<Entity>) -> bool {
        forall|j: int|
            0 <= j < ov.len() ==> !self.entity_memory_pool@.active[ov[j]@ as int] || pending_names(
                self.entity_manager.pending(),
                ov[j]@ as int,
            )
    }

    /// Exactly the slots below `s + n` are active, and the `n` waiting
    /// entities sit on slots `s`, `s + 1`, ... in order.
    pub open spec fn platforms_from(&self, s: int, n: int) -> bool {
        &&& self.entity_memory_pool@.dense_from(s + n)
        &&& forall|j: int| 0 <= j < n ==> (#[trigger] self.entity_manager.pending()[j]).0@ == s + j
    }

    pub open spec fn platform_view(&self) -> Seq<Entity> {
        self.entity_manager.view_of(EntityTag::Platform)
    }

    pub open spec fn platform_count(&self) -> int {
        self.entity_manager.view_of(EntityTag::Platform).len() as int
    }

    /// Same player and goal entities, configuration, screen and levels.
    pub open spec fn same_setup(&self, o: World) -> bool {
        &&& self.player == o.player
        &&& self.goal == o.goal
        &&& self.config == o.config
        &&& self.screen_height == o.screen_height
        &&& self.player_spawn_position == o.player_spawn_position
        &&& self.levels@ == o.levels@
    }

    pub open spec fn player_transform(&self) -> CTransform {
        self.entity_memory_pool@.transforms[self.player@ as int]
    }

    pub open spec fn goal_transform(&self) -> CTransform {
        self.entity_memory_pool@.transforms[self.goal@ as int]
    }

    pub open spec fn player_input(&self) -> CInput {
        self.entity_memory_pool@.inputs[self.player@ as int]
    }

    pub open spec fn start(&self) -> Vec2 {
        self.levels@[self.level_index as int].player_start
    }

    /// Puts the player back at the current level's start, at rest, with
    /// every timer cleared and wall-jump mode off.
    pub fn respawn_player(&mut self)
        requires
            old(self).wf(),
        ensures
            final(self).wf(),
            final(self).timers == cleared_timers(),
            final(self).entity_memory_pool@ == old(self).entity_memory_pool@.with_transform(
                old(self).player@ as int,
                respawned(old(self).player_transform(), old(self).start()),
            ),
            final(self).entity_manager == old(self).entity_manager,
            final(self).level_index == old(self).level_index,
            final(self).goal_reached == old(self).goal_reached,
            final(self).same_setup(*old(self)),
    {
        let start = self.levels[self.level_index].player_start;
        let t = self.entity_memory_pool.get_transform_mut(self.player.id()).unwrap();
        t.position = start;
        t.prev_position = start;
        t.velocity = Vec2::zero();
        self.timers.clear();
    }

    /// Start of a frame: reconciles the registry and ends the one-frame
    /// input edges of the player. Afterwards each view holds exactly the
    /// active slots with its tag, once; platforms waiting to join an empty
    /// platform view make it up, in the order they were added.
    pub fn begin_frame(&mut self)
        requires
            old(self).wf(),
        ensures
            final(self).wf(),
            views_exact(final(self).entity_manager, final(self).entity_memory_pool@),
            old(self).platform_count() == 0 && old(self).waiting_platforms()
                ==> final(self).platform_view() == pending_entities(old(self).entity_manager.pending()),
            final(self).entity_manager.entities@ == old(self).entity_manager.reconciled_entities(
                old(self).entity_memory_pool@,
            ),
            forall|tag: EntityTag|
                #[trigger] final(self).entity_manager.view_of(tag)
                    == old(self).entity_manager.reconciled_view(tag, old(self).entity_memory_pool@),
            final(self).entity_manager.pending().len() == 0,
            final(self).entity_memory_pool@ == old(self).entity_memory_pool@.with_input(
                old(self).player@ as int,
                final(self).player_input(),
            ),
            final(self).player_input().active == old(self).player_input().active,
            forall|b: Button|
                !(#[trigger] final(self).player_input().button(b)).pressed
                    && !final(self).player_input().button(b).released
                    && final(self).player_input().button(b).held == old(self).player_input().button(b).held,
            final(self).timers == old(self).timers,
            final(self).level_index == old(self).level_index,
            final(self).goal_reached == old(self).goal_reached,
            final(self).same_setup(*old(self)),
    {
        let ghost old_manager = self.entity_manager;
        self.entity_manager.update(&self.entity_memory_pool);
        proof {
            lemma_reconciled_platforms_apart(old_manager, self.entity_memory_pool@, self.player@, self.goal@);
            if old(self).platform_count() == 0 && old(self).waiting_platforms() {
                lemma_waiting_platforms_join(old_manager, self.entity_memory_pool@);
            }
        }
        let input = self.entity_memory_pool.get_input_mut(self.player.id()).unwrap();
        input.clear_edges();
    }

    /// A press edge of button `b` on the player's input.
    pub fn press(&mut self, b: Button)
        requires
            old(self).wf(),
        ensures
            final(self).wf(),
            final(self).entity_memory_pool@ == old(self).entity_memory_pool@.with_input(
                old(self).player@ as int,
                final(self).player_input(),
            ),
            final(self).player_input().button(b).held,
            final(self).player_input().button(b).pressed == (old(self).player_input().button(b).pressed
                || !old(self).player_input().button(b).held),
            final(self).player_input().button(b).released == old(self).player_input().button(b).released,
            forall|o: Button|
                o != b ==> #[trigger] final(self).player_input().button(o) == old(
                    self,
                ).player_input().button(o),
            final(self).entity_manager == old(self).entity_manager,
            final(self).timers == old(self).timers,
            final(self).level_index == old(self).level_index,
            final(self).goal_reached == old(self).goal_reached,
            final(self).same_setup(*old(self)),
    {
        let input = self.entity_memory_pool.get_input_mut(self.player.id()).unwrap();
        input.press(b);
    }

    /// A release edge of button `b` on the player's input.
    pub fn release(&mut self, b: Button)
        requires
            old(self).wf(),
        ensures
            final(self).wf(),
            final(self).entity_memory_pool@ == old(self).entity_memory_pool@.with_input(
                old(self).player@ as int,
                final(self).player_input(),
            ),
            !final(self).player_input().button(b).held,
            final(self).player_input().button(b).released,
            final(self).player_input().button(b).pressed == old(self).player_input().button(b).pressed,
            forall|o: Button|
                o != b ==> #[trigger] final(self).player_input().button(o) == old(
                    self,
                ).player_input().button(o),
            final(self).entity_manager == old(self).entity_manager,
            final(self).timers == old(self).timers,
            final(self).level_index == old(self).level_index,
            final(self).goal_reached == old(self).goal_reached,
            final(self).same_setup(*old(self)),
    {
        let input = self.entity_memory_pool.get_input_mut(self.player.id()).unwrap();
        input.release(b);
    }

    /// The movement frame: the player moves (see `move_player`); a player
    /// below the screen respawns at the level's start; then the timers tick.
    pub fn s_update(&mut self) -> (r: FrameCues)
        requires
            old(self).wf(),
        ensures
            final(self).wf(),
            ({
                let t1 = moved(
                    old(self).player_transform(),
                    old(self).timers,
                    old(self).player_input(),
                    old(self).config,
                );
                let b = buffered(old(self).timers, old(self).player_input(), old(self).config);
                &&& r.jump == (ground_jump_due(b) || wall_jump_due(b))
                &&& r.death == falls_out(t1, old(self).screen_height)
                &&& final(self).entity_memory_pool@ == old(self).entity_memory_pool@.with_transform(
                    old(self).player@ as int,
                    if r.death {
                        respawned(t1, old(self).start())
                    } else {
                        t1
                    },
                )
                &&& final(self).timers == (if r.death {
                    cleared_timers()
                } else {
                    moved_timers(old(self).timers, old(self).player_input(), old(self).config).ticked()
                })
            }),
            final(self).entity_manager == old(self).entity_manager,
            final(self).level_index == old(self).level_index,
            final(self).goal_reached == old(self).goal_reached,
            final(self).same_setup(*old(self)),
    {
        let pid = self.player.id();
        let input: CInput = *self.entity_memory_pool.get_input(pid).unwrap();
        let ghost pool0 = self.entity_memory_pool@;
        let t = self.entity_memory_pool.get_transform_mut(pid).unwrap();
        let jump = move_player(t, &mut self.timers, &input, &self.config);
        let death = t.position.y as i128 > self.screen_height as i128 - t.half_size.y as i128;
        let ghost t1 = *t;
        if death {
            self.respawn_player();
            proof {
                assert(self.entity_memory_pool@ =~= pool0.with_transform(
                    pid as int,
                    respawned(t1, self.start()),
                ));
            }
        }
        self.timers.tick();
        FrameCues { jump, death }
    }

    /// Places the player, the goal and the platforms of level `level_index`.
    /// Every entity of the platform view is destroyed, the registry is
    /// reconciled, and one new platform entity per rectangle of the level
    /// waits to join the view at the next reconciliation. The player rests
    /// at the level's start with every timer cleared.
    pub fn load_level(&mut self, level_index: usize) -> (r: Result<(), CapacityExhausted>)
        requires
            old(self).wf(),
            level_index < old(self).levels@.len(),
        ensures
            final(self).wf(),
            final(self).same_setup(*old(self)),
            final(self).entity_memory_pool@.capacity() == old(self).entity_memory_pool@.capacity(),
            final(self).level_index == level_index,
            final(self).goal_reached == old(self).goal_reached,
            final(self).timers == cleared_timers(),
            final(self).player_transform() == respawned(
                old(self).player_transform(),
                old(self).levels@[level_index as int].player_start,
            ),
            final(self).goal_transform() == respawned(
                old(self).goal_transform(),
                old(self).levels@[level_index as int].goal,
            ),
            no_platform_pending(old(self).entity_manager.pending()) ==> final(self).entity_manager.view_of(
                EntityTag::Platform,
            ).len() == 0,
            r is Err ==> !final(self).entity_memory_pool@.has_free_slot(),
            r is Err ==> forall|s: int|
                #[trigger] old(self).entity_memory_pool@.free_from(s) ==> s + old(self).levels@[level_index as int].platforms@.len()
                    > old(self).entity_memory_pool@.capacity(),
            r is Ok ==> final(self).platforms_pending(old(self).levels@[level_index as int].platforms@),
            final(self).entity_memory_pool@.tags[old(self).player@ as int]
                == old(self).entity_memory_pool@.tags[old(self).player@ as int],
            final(self).entity_memory_pool@.tags[old(self).goal@ as int]
                == old(self).entity_memory_pool@.tags[old(self).goal@ as int],
            final(self).old_platforms_gone(old(self).entity_manager.view_of(EntityTag::Platform)),
            forall|s: int|
                #[trigger] old(self).entity_memory_pool@.dense_from(s) && old(self).entity_manager.view_of(
                    EntityTag::Platform,
                ).len() == 0 && s + old(self).levels@[level_index as int].platforms@.len()
                    <= old(self).entity_memory_pool@.capacity() ==> (r is Ok && final(self).platforms_from(
                    s,
                    old(self).levels@[level_index as int].platforms@.len() as int,
                )),
    {
        let ghost cap = old(self).entity_memory_pool@.capacity();
        let ghost len = old(self).levels@[level_index as int].platforms@.len();
        let ghost ov = old(self).entity_manager.view_of(EntityTag::Platform);
        let ghost dense = exists|s: int|
            old(self).entity_memory_pool@.dense_from(s) && ov.len() == 0 && s + len <= cap;
        let ghost d0 = if dense {
            choose|s: int| old(self).entity_memory_pool@.dense_from(s) && ov.len() == 0 && s + len <= cap
        } else {
            0
        };
        let ghost roomy = exists|s: int| old(self).entity_memory_pool@.free_from(s) && s + len <= cap;
        let ghost s0 = if roomy {
            choose|s: int| old(self).entity_memory_pool@.free_from(s) && s + len <= cap
        } else {
            0
        };
        self.level_index = level_index;
        let start = self.levels[level_index].player_start;
        let goal_position = self.levels[level_index].goal;
        {
            let t = self.entity_memory_pool.get_transform_mut(self.player.id()).unwrap();
            t.position = start;
            t.prev_position = start;
            t.velocity = Vec2::zero();
        }
        {
            let t = self.entity_memory_pool.get_transform_mut(self.goal.id()).unwrap();
            t.position = goal_position;
            t.prev_position = goal_position;
            t.velocity = Vec2::zero();
        }
        self.timers.clear();
        let ghost pool_before = self.entity_memory_pool@;
        let ghost player_t = self.player_transform();
        let ghost goal_t = self.goal_transform();
        let ghost manager0 = self.entity_manager;
        let n = self.entity_manager.get_entity_count_by_tag(EntityTag::Platform);
        let mut i: usize = 0;
        while i < n
            invariant
                self.wf(),
                self.same_setup(*old(self)),
                self.goal_reached == old(self).goal_reached,
                self.entity_memory_pool@.capacity() == pool_before.capacity(),
                self.entity_manager == manager0,
                n == manager0.view_of(EntityTag::Platform).len(),
                i <= n,
                self.level_index == level_index,
                level_index < self.levels@.len(),
                self.timers == cleared_timers(),
                self.player_transform() == player_t,
                self.goal_transform() == goal_t,
                self.entity_memory_pool@.transforms == pool_before.transforms,
                roomy ==> self.entity_memory_pool@.free_from(s0) && s0 + len <= cap,
                cap == self.entity_memory_pool@.capacity(),
                ov == manager0.view_of(EntityTag::Platform),
                self.entity_memory_pool@.tags == old(self).entity_memory_pool@.tags,
                dense ==> n == 0 && self.entity_memory_pool@ == pool_before,
                forall|j: int|
                    0 <= j < i ==> !self.entity_memory_pool@.active[manager0.view_of(
                        EntityTag::Platform,
                    )[j]@ as int],
            decreases n - i,
        {
            let platforms = self.entity_manager.get_entities_by_tag(EntityTag::Platform);
            let e: Entity = match platforms {
                Some(v) => v[i],
                None => {
                    proof {
                        assert(false);
                    }
                    return Err(CapacityExhausted);
                },
            };
            e.destroy(&mut self.entity_memory_pool);
            i = i + 1;
        }
        let ghost pool_dead = self.entity_memory_pool@;
        self.entity_manager.update(&self.entity_memory_pool);
        proof {
            lemma_reconciled_platforms_apart(manager0, pool_dead, self.player@, self.goal@);
            if no_platform_pending(manager0.pending()) {
                let pv = manager0.view_of(EntityTag::Platform);
                lemma_pending_tagged_empty(manager0.pending(), EntityTag::Platform);
                assert(pv + pending_tagged(manager0.pending(), EntityTag::Platform) =~= pv);
                lemma_none_kept(pv, keeps(pool_dead, Some(EntityTag::Platform)));
                assert(self.entity_manager.view_of(EntityTag::Platform).len() == 0);
            }
        }
        proof {
            assert(old(self).entity_manager.ids_below(cap));
            assert forall|j: int| 0 <= j < ov.len() implies ov[j]@ < cap by {
                assert(ov == old(self).entity_manager.entity_map@[4]@);
            }
        }
        let ghost map_after = self.entity_manager.entity_map@;
        let ghost rects = self.levels@[level_index as int].platforms@;
        let count = self.levels[level_index].platforms.len();
        let mut k: usize = 0;
        let ghost mut tail = s0;
        while k < count
            invariant
                self.wf(),
                self.same_setup(*old(self)),
                self.goal_reached == old(self).goal_reached,
                self.level_index == level_index,
                level_index < self.levels@.len(),
                rects == self.levels@[level_index as int].platforms@,
                self.timers == cleared_timers(),
                self.player_transform() == player_t,
                self.goal_transform() == goal_t,
                player_t == respawned(
                    old(self).player_transform(),
                    old(self).levels@[level_index as int].player_start,
                ),
                goal_t == respawned(old(self).goal_transform(), old(self).levels@[level_index as int].goal),
                no_platform_pending(old(self).entity_manager.pending()) ==> self.entity_manager.view_of(
                    EntityTag::Platform,
                ).len() == 0,
                self.entity_manager.entity_map@ == map_after,
                k <= count,
                count == rects.len(),
                len == rects.len(),
                cap == self.entity_memory_pool@.capacity(),
                roomy ==> tail <= s0 + k && self.entity_memory_pool@.free_from(tail) && s0 + len <= cap,
                roomy == exists|s: int| old(self).entity_memory_pool@.free_from(s) && s + len <= cap,
                cap == old(self).entity_memory_pool@.capacity(),
                len == old(self).levels@[level_index as int].platforms@.len(),
                ov == old(self).entity_manager.view_of(EntityTag::Platform),
                forall|j: int| 0 <= j < ov.len() ==> ov[j]@ < cap,
                self.entity_memory_pool@.tags[self.player@ as int]
                    == old(self).entity_memory_pool@.tags[self.player@ as int],
                self.entity_memory_pool@.tags[self.goal@ as int] == old(self).entity_memory_pool@.tags[self.goal@ as int],
                forall|j: int|
                    0 <= j < ov.len() ==> !self.entity_memory_pool@.active[ov[j]@ as int] || pending_names(
                        self.entity_manager.pending(),
                        ov[j]@ as int,
                    ),
                dense ==> old(self).entity_memory_pool@.dense_from(d0) && d0 + len <= cap,
                dense == exists|s: int|
                    old(self).entity_memory_pool@.dense_from(s) && ov.len() == 0 && s + len <= cap,
                dense ==> self.entity_memory_pool@.dense_from(d0 + k),
                dense ==> forall|j: int|
                    0 <= j < k ==> (#[trigger] self.entity_manager.pending()[j]).0@ == d0 + j,
                self.entity_manager.pending().len() == k,
                self.waiting_platforms(),
                forall|j: int|
                    0 <= j < k ==> #[trigger] self.entity_manager.pending()[j].1 == EntityTag::Platform
                        && self.entity_memory_pool@.active[self.entity_manager.pending()[j].0@ as int]
                        && self.entity_memory_pool@.transforms[self.entity_manager.pending()[j].0@ as int].position
                        == rects[j].position
                        && self.entity_memory_pool@.transforms[self.entity_manager.pending()[j].0@ as int].size
                        == rects[j].size
                        && self.entity_memory_pool@.transforms[self.entity_manager.pending()[j].0@ as int].half_size
                        == (Vec2 {
                        x: div_toward_zero(rects[j].size.x as int, 2) as i64,
                        y: div_toward_zero(rects[j].size.y as int, 2) as i64,
                    }),
            decreases count - k,
        {
            let rect: PlatformRect = self.levels[level_index].platforms[k];
            if self.entity_memory_pool.get_next_available_id().is_none() {
                proof {
                    if roomy {
                        assert(!self.entity_memory_pool@.active[tail]);
                    }
                    if dense {
                        assert(!self.entity_memory_pool@.active[d0 + k]);
                    }
                    assert(!roomy);
                    assert(!dense);
                    assert forall|s: int|
                        #[trigger] old(self).entity_memory_pool@.dense_from(s) implies !(ov.len() == 0 && s
                        + len <= cap) by {
                        if ov.len() == 0 && s + len <= cap {
                            assert(dense);
                        }
                    }
                    assert forall|s: int| #[trigger] old(self).entity_memory_pool@.free_from(s) implies s + len
                        > cap by {
                        if s + len <= cap {
                            assert(roomy);
                        }
                    }
                }
                return Err(CapacityExhausted);
            }
            let ghost pending_before = self.entity_manager.pending();
            let ghost old_pool_step = self.entity_memory_pool@;
            let ghost view_before = self.entity_manager.view_of(EntityTag::Platform);
            assert(forall|i: int|
                0 <= i < view_before.len() ==> view_before[i]@ != self.player@ && view_before[i]@ != self.goal@);
            let platform = self.entity_manager.add_entity(EntityTag::Platform, &mut self.entity_memory_pool);
            platform.add_component(ComponentKind::Transform, &mut self.entity_memory_pool);
            let t = self.entity_memory_pool.get_transform_mut(platform.id()).unwrap();
            t.position = rect.position;
            t.size = rect.size;
            t.half_size = half_of(rect.size);
            proof {
                if dense {
                    assert(platform@ == d0 + k) by {
                        assert(!old_pool_step.active[d0 + k]);
                        if platform@ < d0 + k {
                            assert(old_pool_step.active[platform@ as int]);
                        }
                    }
                    assert(self.entity_manager.pending()[k as int].0 == platform);
                    assert forall|j: int| 0 <= j < k + 1 implies (#[trigger] self.entity_manager.pending()[j]).0@
                        == d0 + j by {
                        if j < k {
                            assert(self.entity_manager.pending()[j] == pending_before[j]);
                        }
                    }
                }
                assert forall|j: int|
                    0 <= j < ov.len() implies !self.entity_memory_pool@.active[ov[j]@ as int] || pending_names(
                    self.entity_manager.pending(),
                    ov[j]@ as int,
                ) by {
                    let p2 = self.entity_manager.pending();
                    if ov[j]@ == platform@ {
                        assert(p2[k as int].0 == platform);
                    } else if pending_names(pending_before, ov[j]@ as int) {
                        let q = choose|q: int| 0 <= q < pending_before.len() && pending_before[q].0@ == ov[j]@;
                        assert(p2[q] == pending_before[q]);
                    }
                }
                if roomy {
                    if platform@ >= tail {
                        if platform@ > tail {
                            assert(!old_pool_step.active[tail]);
                        }
                        tail = tail + 1;
                    }
                }
                assert forall|j: int| 0 <= j < k implies pending_before[j].0@ != platform@ by {
                    assert(pending_before[j].1 == EntityTag::Platform);
                }
                let p2 = self.entity_manager.pending();
                let pl2 = self.entity_memory_pool@;
                assert forall|j: int| 0 <= j < p2.len() implies #[trigger] p2[j].1 == EntityTag::Platform
                    && p2[j].0@ < pl2.capacity() && pl2.active[p2[j].0@ as int] && pl2.tags[p2[j].0@ as int]
                    == EntityTag::Platform by {
                    if j < k {
                        assert(p2[j] == pending_before[j]);
                        assert(pending_before[j].1 == EntityTag::Platform);
                    }
                }
                assert forall|a: int, b: int|
                    0 <= a < p2.len() && 0 <= b < p2.len() && a != b implies p2[a].0@ != p2[b].0@ by {
                    if a < k {
                        assert(p2[a] == pending_before[a]);
                    }
                    if b < k {
                        assert(p2[b] == pending_before[b]);
                    }
                }
                assert(self.waiting_platforms());
                assert(platform@ != self.player@ && platform@ != self.goal@);
                let pending = self.entity_manager.pending();
                assert forall|i: int| 0 <= i < pending.len() && pending[i].1 == EntityTag::Platform implies pending[i].0@ != self.player@
                    && pending[i].0@ != self.goal@ by {
                    if i < k {
                        assert(pending[i] == pending_before[i]);
                    }
                }
                assert(self.entity_manager.view_of(EntityTag::Platform) == view_before);
                assert(self.platforms_apart());
            }
            k = k + 1;
        }
        proof {
            assert forall|s: int|
                #[trigger] old(self).entity_memory_pool@.dense_from(s) && ov.len() == 0 && s + len <= cap
                    implies self.platforms_from(s, len as int) by {
                assert(dense);
                lemma_dense_unique(old(self).entity_memory_pool@, s, d0);
            }
        }
        Ok(())
    }

    /// A world on a screen of `screen_width` by `screen_height` pixels: the
    /// player and the goal entities, then the first level loaded.
    pub fn new(screen_width: u32, screen_height: u32, levels: Vec<Level>) -> (r: Result<
        World,
        CapacityExhausted,
    >)
        requires
            levels@.len() > 0,
        ensures
            r matches Ok(w) ==> {
                &&& w.wf()
                &&& w.levels@ == levels@
                &&& w.level_index == 0
                &&& !w.goal_reached
                &&& w.timers == cleared_timers()
                &&& w.config == standard_config()
                &&& w.screen_height == screen_height * PIXEL
                &&& w.entity_memory_pool@.capacity() == ENTITY_CAPACITY
                &&& w.player_transform().position == levels@[0].player_start
                &&& w.player_transform().size == (Vec2 { x: 250_000, y: 500_000 })
                &&& w.player_transform().max_speed == 15 * PIXEL
                &&& w.goal_transform().position == levels@[0].goal
                &&& w.player_transform().half_size == (Vec2 { x: 125_000, y: 250_000 })
                &&& w.goal_transform().size == (Vec2 { x: 500_000, y: 500_000 })
                &&& w.goal_transform().half_size == (Vec2 { x: 250_000, y: 250_000 })
                &&& w.player@ == 0
                &&& w.goal@ == 1
                &&& w.entity_memory_pool@.tags[0] == EntityTag::Player
                &&& w.entity_memory_pool@.tags[1] == EntityTag::Goal
                &&& w.entity_manager.view_of(EntityTag::Platform).len() == 0
                &&& w.platforms_pending(levels@[0].platforms@)
                &&& levels@[0].platforms@.len() + 2 <= ENTITY_CAPACITY ==> w.platforms_from(
                    2,
                    levels@[0].platforms@.len() as int,
                )
            },
            levels@[0].platforms@.len() + 2 <= ENTITY_CAPACITY ==> r is Ok,
            r is Err ==> levels@[0].platforms@.len() + 2 > ENTITY_CAPACITY,
    {
        let mut pool = EntityMemoryPool::new(ENTITY_CAPACITY);
        let mut manager = EntityManager::new();
        proof {
            assert(!pool@.active[0]);
        }
        let player = manager.add_entity(EntityTag::Player, &mut pool);
        player.add_component(ComponentKind::Input, &mut pool);
        player.add_component(ComponentKind::Transform, &mut pool);
        let w: i64 = screen_width as i64 * PIXEL;
        let h: i64 = screen_height as i64 * PIXEL;
        let spawn = Vec2::new(w / 2, h / 2);
        {
            let t = pool.get_transform_mut(player.id()).unwrap();
            t.position = spawn;
            t.size = Vec2::new(25 * PIXEL, 50 * PIXEL);
            t.half_size = half_of(t.size);
            t.max_speed = 15 * PIXEL;
        }
        proof {
            assert(!pool@.active[1]);
        }
        let goal = manager.add_entity(EntityTag::Goal, &mut pool);
        goal.add_component(ComponentKind::Transform, &mut pool);
        {
            let t = pool.get_transform_mut(goal.id()).unwrap();
            t.size = Vec2::new(50 * PIXEL, 50 * PIXEL);
            t.half_size = half_of(t.size);
            t.position = Vec2::new(w / 2, 50 * PIXEL);
        }
        let mut world = World {
            entity_manager: manager,
            entity_memory_pool: pool,
            player,
            goal,
            player_spawn_position: spawn,
            screen_height: h,
            timers: PlayerTimers::new(),
            config: MovementConfig::standard(),
            level_index: 0,
            goal_reached: false,
            levels,
        };
        proof {
            assert(world.entity_memory_pool@.free_from(2));
            assert(world.entity_manager.ids_below(world.entity_memory_pool@.capacity()));
            assert(world.entity_memory_pool@.dense_from(2));
            assert(world.entity_manager.view_of(EntityTag::Platform).len() == 0);
            assert(world.entity_manager.pending()[0].1 == EntityTag::Player);
            assert(no_platform_pending(world.entity_manager.pending()));
        }
        match world.load_level(0) {
            Ok(()) => {
                proof {
                    assert(world.player@ == 0);
                    assert(world.goal@ == 1);
                    assert(world.entity_memory_pool@.tags[0] == EntityTag::Player);
                    assert(world.entity_memory_pool@.tags[1] == EntityTag::Goal);
                    assert(world.entity_manager.view_of(EntityTag::Platform).len() == 0);
                    assert(world.player_transform().half_size == (Vec2 { x: 125_000, y: 250_000 }));
                    assert(world.goal_transform().half_size == (Vec2 { x: 250_000, y: 250_000 }));
                }
                Ok(world)
            },
            Err(e) => Err(e),
        }
    }

    /// The collision frame. The player's box is corrected against the
    /// platform view (see `adjustment_for` and `landed`). When the player's
    /// box, as it stood before the correction, meets the goal's and did not
    /// in the previous collision frame, the next level is loaded, the player
    /// respawns there and the result is `Ok(true)`: one transition per
    /// contact with the goal.
    pub fn s_collision(&mut self) -> (r: Result<bool, CapacityExhausted>)
        requires
            old(self).wf(),
        ensures
            final(self).wf(),
            ({
                let t = old(self).player_transform();
                let pool = old(self).entity_memory_pool@;
                let adj = adjustment_for(
                    solids_of(old(self).entity_manager.view_of(EntityTag::Platform), pool),
                    t.position,
                    t.prev_position,
                    t.half_size,
                );
                let g = old(self).goal_transform();
                let hit = intersects(box_overlap(g.position, g.half_size, t.position, t.half_size));
                let advance = hit && !old(self).goal_reached;
                let next = next_level(old(self).level_index as int, old(self).levels@.len() as int);
                &&& final(self).goal_reached == hit
                &&& !advance ==> {
                    &&& r == Ok::<bool, CapacityExhausted>(false)
                    &&& final(self).entity_memory_pool@ == pool.with_transform(
                        old(self).player@ as int,
                        landed(t, adj),
                    )
                    &&& final(self).timers == landed_timers(t, old(self).timers, adj, old(self).config)
                    &&& final(self).level_index == old(self).level_index
                    &&& final(self).entity_manager == old(self).entity_manager
                }
                &&& advance ==> {
                    &&& final(self).level_index == next
                    &&& r is Err ==> !final(self).entity_memory_pool@.has_free_slot()
                    &&& r is Err ==> forall|s: int|
                        #[trigger] pool.free_from(s) ==> s + old(self).levels@[next].platforms@.len()
                            > pool.capacity()
                    &&& final(self).old_platforms_gone(old(self).entity_manager.view_of(EntityTag::Platform))
                    &&& no_platform_pending(old(self).entity_manager.pending())
                        ==> final(self).platform_count() == 0
                    &&& r is Ok ==> {
                        &&& r == Ok::<bool, CapacityExhausted>(true)
                        &&& final(self).timers == cleared_timers()
                        &&& final(self).player_transform() == respawned(
                            landed(t, adj),
                            old(self).levels@[next].player_start,
                        )
                        &&& final(self).goal_transform() == respawned(
                            g,
                            old(self).levels@[next].goal,
                        )
                        &&& final(self).platforms_pending(old(self).levels@[next].platforms@)
                    }
                }
            }),
            final(self).same_setup(*old(self)),
    {
        let pid = self.player.id();
        let t0: CTransform = *self.entity_memory_pool.get_transform(pid).unwrap();
        let ghost pool0 = self.entity_memory_pool@;
        let ghost view = self.entity_manager.view_of(EntityTag::Platform);
        let mut solids: Vec<Solid> = Vec::new();
        let platforms = self.entity_manager.get_entities_by_tag(EntityTag::Platform);
        match platforms {
            Some(v) => {
                let mut i: usize = 0;
                while i < v.len()
                    invariant
                        v@ == view,
                        i <= v@.len(),
                        self.wf(),
                        self.entity_memory_pool@ == pool0,
                        self.entity_manager.view_of(EntityTag::Platform) == view,
                        solids@ == solids_of(view.take(i as int), pool0),
                    decreases v.len() - i,
                {
                    let e = v[i];
                    proof {
                        assert(self.entity_manager.ids_below(pool0.capacity()));
                        assert(e@ < pool0.capacity());
                    }
                    proof {
                        assert(view.take(i as int + 1).drop_last() =~= view.take(i as int));
                        assert(view.take(i as int + 1).last() == e);
                    }
                    match self.entity_memory_pool.get_transform(e.id()) {
                        Some(tr) => {
                            solids.push(Solid { position: tr.position, half_size: tr.half_size });
                        },
                        None => {},
                    }
                    i = i + 1;
                }
                proof {
                    assert(view.take(view.len() as int) =~= view);
                }
            },
            None => {},
        }
        let adj = compute_adjustment(t0.position, t0.prev_position, t0.half_size, &solids);
        proof {
            lemma_adjustment_bounds(solids@, t0.position, t0.prev_position, t0.half_size);
        }
        {
            let t = self.entity_memory_pool.get_transform_mut(pid).unwrap();
            t.grounded = false;
            t.position = Vec2 {
                x: clamp_to_i64(t.position.x as i128 + adj.x),
                y: clamp_to_i64(t.position.y as i128 + adj.y),
            };
            if adj.y != 0 {
                if t.velocity.y > 0 {
                    t.grounded = true;
                    self.timers.grounded_timer = self.config.grounded_duration;
                    self.timers.wall_jump_physics = false;
                }
                t.velocity.y = 0;
            }
            if adj.x != 0 {
                t.velocity.x = 0;
                self.timers.wall_contact_timer = if adj.x > 0 {
                    -self.config.wall_contact_duration
                } else {
                    self.config.wall_contact_duration
                };
            }
        }
        let g: CTransform = *self.entity_memory_pool.get_transform(self.goal.id()).unwrap();
        let o = g.get_overlap(t0.position, t0.half_size);
        if o.x > 0 && o.y > 0 {
            if self.goal_reached {
                return Ok(false);
            }
            self.goal_reached = true;
            let next = if self.level_index < self.levels.len() - 1 {
                self.level_index + 1
            } else {
                0
            };
            let ghost pool_mid = self.entity_memory_pool@;
            match self.load_level(next) {
                Ok(()) => {},
                Err(e) => {
                    proof {
                        assert(pool_mid.active == old(self).entity_memory_pool@.active);
                        assert forall|s: int|
                            #[trigger] old(self).entity_memory_pool@.free_from(s) implies s
                            + old(self).levels@[next as int].platforms@.len()
                            > old(self).entity_memory_pool@.capacity() by {
                            assert(pool_mid.free_from(s));
                        }
                    }
                    return Err(e);
                },
            }
            let ghost before_respawn = *self;
            self.respawn_player();
            proof {
                let rects = old(self).levels@[next as int].platforms@;
                assert(before_respawn.platforms_pending(rects));
                let pending = self.entity_manager.pending();
                assert forall|j: int| 0 <= j < rects.len() implies pending[j].0@ != self.player@ by {
                    assert(pending[j].1 == EntityTag::Platform);
                }
                assert(self.platforms_pending(rects));
                assert(self.goal_transform() == before_respawn.goal_transform());
            }
            Ok(true)
        } else {
            self.goal_reached = false;
            Ok(false)
        }
    }
}

} // verus!
