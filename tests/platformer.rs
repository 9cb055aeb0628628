use platformer::collision::{compute_adjustment, Adjustment, Solid};
use platformer::components::{Button, CInput, CLifetime, CTransform, Component};
use platformer::entities::entity::Entity;
use platformer::entities::entity_manager::EntityManager;
use platformer::entities::entity_memory_pool::{ComponentKind, EntityMemoryPool};
use platformer::entities::EntityTag;
use platformer::geometry::{div_trunc, get_overlap, half_of, saturating_add, Vec2, PIXEL};
use platformer::levels::{get_levels, Level, PlatformRect};
use platformer::movement::{move_player, MovementConfig, PlayerTimers};
use platformer::world::{CapacityExhausted, World, ENTITY_CAPACITY};

fn px(x: i64, y: i64) -> Vec2 {
    Vec2::new(x * PIXEL, y * PIXEL)
}

fn rect(x: i64, y: i64, w: i64, h: i64) -> PlatformRect {
    PlatformRect { position: px(x, y), size: px(w, h) }
}

/// A level with one wide floor under (100, 140) and the goal far away.
fn floor_level() -> Level {
    Level { platforms: vec![rect(100, 140, 1000, 50)], player_start: px(100, 90), goal: px(1800, 100) }
}

#[test]
fn overlap_is_symmetric() {
    let a = get_overlap(px(100, 100), px(12, 25), px(100, 140), px(500, 25));
    let b = get_overlap(px(100, 140), px(500, 25), px(100, 100), px(12, 25));
    assert_eq!(a, b);
    assert_eq!(a.x, 512 * PIXEL as i128);
    assert_eq!(a.y, 10 * PIXEL as i128);
}

#[test]
fn overlap_negative_when_apart() {
    let o = get_overlap(px(0, 0), px(5, 5), px(20, 3), px(5, 5));
    assert_eq!(o.x, -10 * PIXEL as i128);
    assert_eq!(o.y, 7 * PIXEL as i128);
}

#[test]
fn landing_resolves_along_y() {
    let solids = vec![Solid { position: px(100, 140), half_size: px(500, 25) }];
    let adj = compute_adjustment(px(100, 100), px(100, 90), px(12, 25), &solids);
    assert_eq!(adj, Adjustment { x: 0, y: -10 * PIXEL as i128 });
    assert_eq!(100 * PIXEL as i128 + adj.y, (140 - 25 - 25) * PIXEL as i128);
}

#[test]
fn diagonal_entry_takes_smaller_overlap() {
    // Previously clear on both axes; now 4 px deep on x and 6 px on y.
    let solids = vec![Solid { position: px(0, 0), half_size: px(10, 10) }];
    let adj = compute_adjustment(px(16, 14), px(30, 30), px(10, 10), &solids);
    assert_eq!(adj, Adjustment { x: 4 * PIXEL as i128, y: 0 });
}

#[test]
fn side_entry_resolves_along_x() {
    // Overlapping on y in the previous frame: a wall to the right.
    let solids = vec![Solid { position: px(50, 0), half_size: px(10, 100) }];
    let adj = compute_adjustment(px(35, 0), px(25, 0), px(10, 10), &solids);
    assert_eq!(adj, Adjustment { x: -5 * PIXEL as i128, y: 0 });
}

#[test]
fn last_solid_wins_per_axis() {
    let solids = vec![
        Solid { position: px(0, 40), half_size: px(100, 25) },
        Solid { position: px(0, 38), half_size: px(100, 25) },
    ];
    let adj = compute_adjustment(px(0, 0), px(0, -10), px(10, 25), &solids);
    assert_eq!(adj, Adjustment { x: 0, y: -12 * PIXEL as i128 });
}

#[test]
fn no_contact_no_adjustment() {
    let solids = vec![Solid { position: px(500, 500), half_size: px(10, 10) }];
    let adj = compute_adjustment(px(0, 0), px(0, 0), px(10, 10), &solids);
    assert_eq!(adj, Adjustment { x: 0, y: 0 });
}

#[test]
fn world_landing_grounds_player() {
    let mut world = World::new(1920, 1080, vec![floor_level()]).unwrap();
    world.begin_frame();
    let pid = world.player.id();
    {
        let t = world.entity_memory_pool.get_transform_mut(pid).unwrap();
        t.position = px(100, 100);
        t.prev_position = px(100, 90);
        t.half_size = px(12, 25);
        t.velocity = Vec2::new(3 * PIXEL, 5 * PIXEL);
    }
    assert_eq!(world.s_collision(), Ok(false));
    let t = *world.entity_memory_pool.get_transform(pid).unwrap();
    assert_eq!(t.position, px(100, 90));
    assert_eq!(t.velocity.y, 0);
    assert_eq!(t.velocity.x, 3 * PIXEL);
    assert!(t.grounded);
    assert_eq!(world.timers.grounded_timer, world.config.grounded_duration);
    assert_eq!(world.timers.grounded_timer, 6);
}

#[test]
fn wall_contact_arms_signed_timer() {
    let level = Level { platforms: vec![rect(50, 0, 20, 200)], player_start: px(0, 0), goal: px(1800, 900) };
    let mut world = World::new(1920, 1080, vec![level]).unwrap();
    world.begin_frame();
    let pid = world.player.id();
    {
        let t = world.entity_memory_pool.get_transform_mut(pid).unwrap();
        t.position = px(35, 0);
        t.prev_position = px(25, 0);
        t.half_size = px(10, 10);
        t.velocity = Vec2::new(10 * PIXEL, 0);
    }
    assert_eq!(world.s_collision(), Ok(false));
    let t = *world.entity_memory_pool.get_transform(pid).unwrap();
    assert_eq!(t.position, px(30, 0));
    assert_eq!(t.velocity.x, 0);
    assert!(!t.grounded);
    // Pushed left: the wall is on the right, the timer is positive.
    assert_eq!(world.timers.wall_contact_timer, 10);
}

fn pressed_space() -> CInput {
    let mut input = CInput::new();
    input.press(Button::Space);
    input
}

fn player_transform() -> CTransform {
    let mut t = CTransform::new();
    t.reset();
    t.size = px(25, 50);
    t.half_size = half_of(t.size);
    t.max_speed = 15 * PIXEL;
    t
}

#[test]
fn buffered_jump_on_last_grounded_tick() {
    let cfg = MovementConfig::standard();
    let mut t = player_transform();
    let mut timers = PlayerTimers::new();
    timers.grounded_timer = 1;
    let jumped = move_player(&mut t, &mut timers, &pressed_space(), &cfg);
    assert!(jumped);
    // Jump impulse, then one frame of gravity.
    assert_eq!(t.velocity.y, -30 * PIXEL + 24_525);
    assert_eq!(t.position.y, -30 * PIXEL + 24_525);
    assert_eq!(timers.grounded_timer, 0);
    assert_eq!(timers.jump_input_timer, 0);
}

#[test]
fn jump_press_in_the_air_is_buffered() {
    let cfg = MovementConfig::standard();
    let mut t = player_transform();
    let mut timers = PlayerTimers::new();
    let jumped = move_player(&mut t, &mut timers, &pressed_space(), &cfg);
    assert!(!jumped);
    assert_eq!(timers.jump_input_timer, 6);
    assert_eq!(t.velocity.y, 24_525);
    timers.tick();
    assert_eq!(timers.jump_input_timer, 5);
    // Landing while the press is still buffered starts the jump.
    timers.grounded_timer = 6;
    let jumped = move_player(&mut t, &mut timers, &CInput::new(), &cfg);
    assert!(jumped);
    assert_eq!(t.velocity.y, -30 * PIXEL + 24_525);
}

#[test]
fn wall_jump_pushes_away_from_wall() {
    let cfg = MovementConfig::standard();
    let mut t = player_transform();
    let mut timers = PlayerTimers::new();
    timers.wall_contact_timer = 3;
    let jumped = move_player(&mut t, &mut timers, &pressed_space(), &cfg);
    assert!(jumped);
    assert!(timers.wall_jump_physics);
    assert_eq!(timers.wall_contact_timer, 0);
    assert_eq!(t.velocity.x, -15 * PIXEL);
    assert_eq!(t.velocity.y, -40 * PIXEL + 24_525);
    assert_eq!(t.acceleration.x, 0);
}

#[test]
fn wall_jump_mode_clamps_speed() {
    let cfg = MovementConfig::standard();
    let mut t = player_transform();
    t.velocity.x = 15 * PIXEL;
    let mut timers = PlayerTimers::new();
    timers.wall_jump_physics = true;
    let mut input = CInput::new();
    input.press(Button::Right);
    move_player(&mut t, &mut timers, &input, &cfg);
    assert_eq!(t.velocity.x, 15 * PIXEL);
    input.release(Button::Right);
    input.press(Button::Left);
    move_player(&mut t, &mut timers, &input, &cfg);
    assert_eq!(t.velocity.x, 14 * PIXEL);
}

#[test]
fn releasing_jump_cuts_the_rise() {
    let cfg = MovementConfig::standard();
    let mut t = player_transform();
    t.velocity.y = -30 * PIXEL;
    let mut timers = PlayerTimers::new();
    let mut input = CInput::new();
    input.press(Button::Space);
    input.clear_edges();
    input.release(Button::Space);
    move_player(&mut t, &mut timers, &input, &cfg);
    assert_eq!(t.velocity.y, -10 * PIXEL + 24_525);
}

#[test]
fn steering_accelerates_and_decelerates() {
    let cfg = MovementConfig::standard();
    let mut t = player_transform();
    let mut timers = PlayerTimers::new();
    let mut input = CInput::new();
    input.press(Button::Right);
    move_player(&mut t, &mut timers, &input, &cfg);
    // Half of the 15 px gap.
    assert_eq!(t.acceleration.x, 75_000);
    assert_eq!(t.velocity.x, 75_000);
    input.release(Button::Right);
    move_player(&mut t, &mut timers, &input, &cfg);
    // A fifth of the 7.5 px gap back to rest.
    assert_eq!(t.acceleration.x, -15_000);
    assert_eq!(t.velocity.x, 60_000);
}

#[test]
fn timers_tick_toward_zero() {
    let mut timers = PlayerTimers::new();
    timers.jump_input_timer = 2;
    timers.grounded_timer = 0;
    timers.wall_contact_timer = -3;
    timers.tick();
    assert_eq!(timers.jump_input_timer, 1);
    assert_eq!(timers.grounded_timer, 0);
    assert_eq!(timers.wall_contact_timer, -2);
}

#[test]
fn goal_transition_once_per_contact() {
    // The second level's start lies on its goal.
    let first = Level { platforms: vec![rect(100, 500, 200, 20)], player_start: px(100, 100), goal: px(400, 100) };
    let second = Level {
        platforms: vec![rect(300, 600, 400, 20), rect(700, 300, 20, 400)],
        player_start: px(600, 100),
        goal: px(600, 100),
    };
    let mut world = World::new(1920, 1080, vec![first, second]).unwrap();
    world.begin_frame();
    let pid = world.player.id();
    {
        let t = world.entity_memory_pool.get_transform_mut(pid).unwrap();
        t.position = px(400, 100);
        t.prev_position = px(400, 100);
    }
    world.timers.grounded_timer = 4;
    assert_eq!(world.s_collision(), Ok(true));
    assert_eq!(world.level_index, 1);
    let t = *world.entity_memory_pool.get_transform(pid).unwrap();
    assert_eq!(t.position, px(600, 100));
    assert_eq!(t.prev_position, px(600, 100));
    assert_eq!(t.velocity, Vec2::zero());
    assert_eq!(world.entity_memory_pool.get_transform(world.goal.id()).unwrap().position, px(600, 100));
    assert_eq!(world.timers, PlayerTimers::new());
    // Still on the goal: no second transition.
    world.begin_frame();
    assert_eq!(world.s_collision(), Ok(false));
    assert_eq!(world.level_index, 1);
    // The new level's platforms replaced the old one.
    let platforms = world.entity_manager.get_entities_by_tag(EntityTag::Platform).unwrap();
    assert_eq!(platforms.len(), 2);
    let first = world.entity_memory_pool.get_transform(platforms[0].id()).unwrap();
    assert_eq!(first.position, px(300, 600));
    assert_eq!(first.half_size, px(200, 10));
    let second = world.entity_memory_pool.get_transform(platforms[1].id()).unwrap();
    assert_eq!(second.position, px(700, 300));
}

#[test]
fn last_level_wraps_to_first() {
    let only = Level { platforms: vec![], player_start: px(10, 10), goal: px(10, 10) };
    let mut world = World::new(1920, 1080, vec![only]).unwrap();
    world.begin_frame();
    assert_eq!(world.s_collision(), Ok(true));
    assert_eq!(world.level_index, 0);
}

#[test]
fn falling_out_respawns_and_clears_timers() {
    let mut world = World::new(1920, 1080, vec![floor_level()]).unwrap();
    world.begin_frame();
    let pid = world.player.id();
    {
        let t = world.entity_memory_pool.get_transform_mut(pid).unwrap();
        t.position = px(100, 1060);
        t.velocity = Vec2::new(2 * PIXEL, 20 * PIXEL);
    }
    world.timers.wall_contact_timer = -5;
    world.timers.grounded_timer = 3;
    world.timers.wall_jump_physics = true;
    let cues = world.s_update();
    assert!(cues.death);
    assert!(!cues.jump);
    let t = *world.entity_memory_pool.get_transform(pid).unwrap();
    assert_eq!(t.position, px(100, 90));
    assert_eq!(t.prev_position, px(100, 90));
    assert_eq!(t.velocity, Vec2::zero());
    assert_eq!(world.timers.jump_input_timer, 0);
    assert_eq!(world.timers.grounded_timer, 0);
    assert_eq!(world.timers.wall_contact_timer, 0);
    assert!(!world.timers.wall_jump_physics);
}

#[test]
fn respawn_resets_position_and_timers() {
    let mut world = World::new(1920, 1080, vec![floor_level()]).unwrap();
    let pid = world.player.id();
    world.entity_memory_pool.get_transform_mut(pid).unwrap().position = px(5, 5);
    world.timers.grounded_timer = 2;
    world.timers.wall_contact_timer = 7;
    world.respawn_player();
    assert_eq!(world.entity_memory_pool.get_transform(pid).unwrap().position, px(100, 90));
    assert_eq!(world.timers, PlayerTimers::new());
}

#[test]
fn world_new_sets_up_player_and_goal() {
    let world = World::new(1920, 1080, get_levels(1920, 1080)).unwrap();
    let pt = world.entity_memory_pool.get_transform(world.player.id()).unwrap();
    assert_eq!(pt.size, px(25, 50));
    assert_eq!(pt.half_size, Vec2::new(125_000, 25 * PIXEL));
    assert_eq!(pt.max_speed, 15 * PIXEL);
    assert_eq!(pt.position, px(580, 735));
    let gt = world.entity_memory_pool.get_transform(world.goal.id()).unwrap();
    assert_eq!(gt.position, px(1340, 735));
    // Player and goal were reconciled by the level load; the two platforms wait.
    assert_eq!(world.entity_manager.entities_to_add.len(), 2);
    assert_eq!(world.level_index, 0);
}

#[test]
fn world_new_reports_capacity_exhaustion() {
    let mut platforms = Vec::new();
    for _ in 0..ENTITY_CAPACITY - 1 {
        platforms.push(rect(0, 0, 10, 10));
    }
    let level = Level { platforms, player_start: px(0, 0), goal: px(0, 0) };
    assert!(matches!(World::new(1920, 1080, vec![level]), Err(CapacityExhausted)));
}

#[test]
fn input_edges_last_one_frame() {
    let mut world = World::new(1920, 1080, vec![floor_level()]).unwrap();
    let pid = world.player.id();
    world.press(Button::Left);
    world.press(Button::Left);
    {
        let input = world.entity_memory_pool.get_input(pid).unwrap();
        assert!(input.left.pressed && input.left.held && !input.left.released);
    }
    world.begin_frame();
    {
        let input = world.entity_memory_pool.get_input(pid).unwrap();
        assert!(!input.left.pressed && input.left.held);
    }
    world.press(Button::Left);
    assert!(!world.entity_memory_pool.get_input(pid).unwrap().left.pressed);
    world.release(Button::Left);
    {
        let input = world.entity_memory_pool.get_input(pid).unwrap();
        assert!(input.left.released && !input.left.held);
        assert!(!input.right.held && !input.space.held);
    }
}

#[test]
fn allocation_reuses_lowest_free_slot() {
    let mut pool = EntityMemoryPool::new(4);
    let a = pool.add_entity(EntityTag::Enemy);
    let b = pool.add_entity(EntityTag::Bullet);
    let c = pool.add_entity(EntityTag::Bullet);
    assert_eq!((a.id(), b.id(), c.id()), (0, 1, 2));
    pool.destroy_entity(2);
    pool.destroy_entity(1);
    assert!(!pool.is_active(1));
    let d = pool.add_entity(EntityTag::Platform);
    assert_eq!(d.id(), 1);
    assert_eq!(*pool.get_tag(1), EntityTag::Platform);
    let e = pool.add_entity(EntityTag::Goal);
    assert_eq!(e.id(), 2);
    let f = pool.add_entity(EntityTag::Goal);
    assert_eq!(f.id(), 3);
    assert_eq!(pool.get_next_available_id(), None);
    assert_eq!(pool.get_entity_count(), 4);
}

#[test]
fn add_component_resets_leftovers() {
    let mut pool = EntityMemoryPool::new(2);
    let e = pool.add_entity(EntityTag::Player);
    e.add_component(ComponentKind::Transform, &mut pool);
    e.add_component(ComponentKind::Input, &mut pool);
    e.add_component(ComponentKind::Lifetime, &mut pool);
    {
        let t = pool.get_transform_mut(e.id()).unwrap();
        t.position = px(3, 4);
        t.velocity = px(1, 1);
        t.scale = 7;
        t.max_speed = 9;
        t.grounded = true;
        t.size = px(2, 2);
    }
    pool.get_input_mut(e.id()).unwrap().press(Button::Up);
    pool.get_lifetime_mut(e.id()).unwrap().lifetime_timer = 12;
    e.destroy(&mut pool);
    let again = pool.add_entity(EntityTag::Enemy);
    assert_eq!(again.id(), e.id());
    again.add_component(ComponentKind::Transform, &mut pool);
    again.add_component(ComponentKind::Input, &mut pool);
    again.add_component(ComponentKind::Lifetime, &mut pool);
    let t = pool.get_transform(again.id()).unwrap();
    assert_eq!(t.position, Vec2::zero());
    assert_eq!(t.prev_position, Vec2::zero());
    assert_eq!(t.velocity, Vec2::zero());
    assert_eq!(t.acceleration, Vec2::zero());
    assert_eq!(t.size, Vec2::zero());
    assert_eq!(t.half_size, Vec2::zero());
    assert_eq!(t.max_speed, 0);
    assert_eq!(t.scale, PIXEL);
    assert!(!t.grounded);
    assert!(t.is_active());
    assert_eq!(*pool.get_input(again.id()).unwrap(), {
        let mut i = CInput::new();
        i.reset();
        i
    });
    assert!(!pool.get_input(again.id()).unwrap().up.held);
    assert_eq!(pool.get_lifetime(again.id()).unwrap().lifetime_timer, 0);
    assert_eq!(pool.get_lifetime(again.id()).unwrap().lifetime_duration, 0);
}

#[test]
fn views_change_only_on_update() {
    let mut pool = EntityMemoryPool::new(8);
    let mut manager = EntityManager::new();
    let a = manager.add_entity(EntityTag::Platform, &mut pool);
    let b = manager.add_entity(EntityTag::Enemy, &mut pool);
    let c = manager.add_entity(EntityTag::Platform, &mut pool);
    assert_eq!(manager.get_entity_count_by_tag(EntityTag::Platform), 0);
    assert_eq!(manager.get_all_entities().len(), 0);
    manager.update(&pool);
    assert_eq!(manager.get_entities_by_tag(EntityTag::Platform).unwrap(), &vec![a, c]);
    assert_eq!(manager.get_entities_by_tag(EntityTag::Enemy).unwrap(), &vec![b]);
    assert_eq!(manager.get_all_entities(), &vec![a, b, c]);
    assert_eq!(manager.entities_to_add.len(), 0);
    a.destroy(&mut pool);
    // Destroyed, but still in its view until the next update.
    assert_eq!(manager.get_entity_count_by_tag(EntityTag::Platform), 2);
    manager.update(&pool);
    assert_eq!(manager.get_entities_by_tag(EntityTag::Platform).unwrap(), &vec![c]);
    assert_eq!(manager.get_all_entities(), &vec![b, c]);
    assert_eq!(manager.get_entity_count_by_tag(EntityTag::Player), 0);
}

#[test]
fn view_mut_gives_access_to_a_view() {
    let mut pool = EntityMemoryPool::new(4);
    let mut manager = EntityManager::new();
    manager.add_entity(EntityTag::Goal, &mut pool);
    manager.update(&pool);
    manager.get_entities_by_tag_mut(EntityTag::Goal).unwrap().push(Entity::new(3));
    assert_eq!(manager.get_entity_count_by_tag(EntityTag::Goal), 2);
}

#[test]
fn level_table_for_full_hd() {
    let levels = get_levels(1920, 1080);
    assert_eq!(levels.len(), 2);
    assert_eq!(levels[0].platforms, vec![rect(960, 810, 1000, 50), rect(960, 740, 250, 100)]);
    assert_eq!(levels[0].player_start, px(580, 735));
    assert_eq!(levels[0].goal, px(1340, 735));
    assert_eq!(
        levels[1].platforms,
        vec![rect(960, 810, 1000, 50), rect(1248, 270, 400, 50), rect(864, 216, 50, 800), rect(1056, 540, 50, 500)]
    );
    assert_eq!(levels[1].player_start, px(580, 735));
    assert_eq!(levels[1].goal, px(1340, 195));
}

#[test]
fn arithmetic_helpers() {
    assert_eq!(div_trunc(-7, 2), -3);
    assert_eq!(div_trunc(7, 2), 3);
    assert_eq!(half_of(Vec2::new(25, -25)), Vec2::new(12, -12));
    assert_eq!(saturating_add(i64::MAX, 1), i64::MAX);
    assert_eq!(saturating_add(i64::MIN, -1), i64::MIN);
    assert_eq!(saturating_add(2, 3), 5);
}

#[test]
fn transform_update_integrates() {
    let mut t = CTransform::new();
    assert_eq!(t.max_speed, 4 * PIXEL);
    assert_eq!(t.scale, PIXEL);
    t.position = px(1, 1);
    t.velocity = px(2, 0);
    t.acceleration = px(0, 1);
    t.update();
    assert_eq!(t.prev_position, px(1, 1));
    assert_eq!(t.velocity, px(2, 1));
    assert_eq!(t.position, px(3, 2));
}

#[test]
fn lifetime_shares_in_fixed_point() {
    let mut l = CLifetime::new(4);
    l.lifetime_timer = 1;
    assert_eq!(l.get_percentage_remaining(), Some(2_500));
    assert_eq!(l.get_percentage_elapsed(), Some(7_500));
    let empty = CLifetime::new(0);
    assert_eq!(empty.get_percentage_remaining(), None);
    assert_eq!(empty.get_percentage_elapsed(), None);
}

#[test]
fn reused_slot_leaves_its_old_view() {
    let mut pool = EntityMemoryPool::new(4);
    let mut manager = EntityManager::new();
    let a = manager.add_entity(EntityTag::Platform, &mut pool);
    manager.update(&pool);
    a.destroy(&mut pool);
    let b = manager.add_entity(EntityTag::Enemy, &mut pool);
    assert_eq!(b.id(), a.id());
    manager.update(&pool);
    assert_eq!(manager.get_entity_count_by_tag(EntityTag::Platform), 0);
    assert_eq!(manager.get_entities_by_tag(EntityTag::Enemy).unwrap(), &vec![b]);
    assert_eq!(manager.get_all_entities(), &vec![b]);
}

#[test]
fn same_tag_reuse_is_held_once() {
    let mut pool = EntityMemoryPool::new(4);
    let mut manager = EntityManager::new();
    let a = manager.add_entity(EntityTag::Platform, &mut pool);
    manager.update(&pool);
    a.destroy(&mut pool);
    let b = manager.add_entity(EntityTag::Platform, &mut pool);
    assert_eq!(b, a);
    manager.update(&pool);
    assert_eq!(manager.get_entities_by_tag(EntityTag::Platform).unwrap(), &vec![a]);
    assert_eq!(manager.get_all_entities(), &vec![a]);
}

#[test]
fn world_new_places_player_and_goal_on_first_slots() {
    let world = World::new(1920, 1080, get_levels(1920, 1080)).unwrap();
    assert_eq!(world.player.id(), 0);
    assert_eq!(world.goal.id(), 1);
    assert_eq!(*world.entity_memory_pool.get_tag(0), EntityTag::Player);
    assert_eq!(*world.entity_memory_pool.get_tag(1), EntityTag::Goal);
    assert_eq!(world.entity_memory_pool.get_transform(1).unwrap().half_size, px(25, 25));
    assert_eq!(world.entity_manager.get_entity_count_by_tag(EntityTag::Platform), 0);
    assert_eq!(world.entity_manager.entities_to_add[0].0.id(), 2);
    assert_eq!(world.entity_manager.entities_to_add[1].0.id(), 3);
    assert!(!world.entity_memory_pool.is_active(4));
    assert_eq!(world.entity_manager.get_entities_by_tag(EntityTag::Player).unwrap(), &vec![world.player]);
}

#[test]
fn component_never_added_is_absent() {
    let mut pool = EntityMemoryPool::new(2);
    let e = pool.add_entity(EntityTag::Enemy);
    assert!(pool.get_transform(e.id()).is_none());
    assert!(pool.get_input_mut(e.id()).is_none());
    assert!(e.get_lifetime(&pool).is_none());
    e.add_component(ComponentKind::Transform, &mut pool);
    assert!(pool.get_transform(e.id()).is_some());
    assert!(pool.get_input(e.id()).is_none());
    e.get_transform_mut(&mut pool).unwrap().position = px(4, 2);
    assert_eq!(e.get_transform(&pool).unwrap().position, px(4, 2));
}

#[test]
fn first_frame_shows_level_platforms_in_order() {
    let mut world = World::new(1920, 1080, get_levels(1920, 1080)).unwrap();
    let waiting: Vec<Entity> = world.entity_manager.entities_to_add.iter().map(|p| p.0).collect();
    world.begin_frame();
    let platforms = world.entity_manager.get_entities_by_tag(EntityTag::Platform).unwrap().clone();
    assert_eq!(platforms, waiting);
    assert_eq!(world.entity_memory_pool.get_transform(platforms[0].id()).unwrap().position, px(960, 810));
    assert_eq!(world.entity_memory_pool.get_transform(platforms[1].id()).unwrap().position, px(960, 740));
    assert_eq!(world.entity_manager.get_entities_by_tag(EntityTag::Goal).unwrap(), &vec![world.goal]);
    assert_eq!(world.entity_manager.get_all_entities().len(), 4);
}
