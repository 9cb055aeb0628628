use vstd::prelude::*;

use crate::geometry::{Overlap, Vec2, PIXEL, box_overlap, clamp_i64, get_overlap, saturating_add};

verus! {

/// Per-entity data of one kind. Records live in fixed slots and are reused:
/// `reset` brings every field back to its default and marks the record
/// active.
pub trait Component: Sized {
    /// Whether the record is in use.
    spec fn spec_active(&self) -> bool;

    /// The record with its active flag set to `active` and nothing else changed.
    spec fn with_active(&self, active: bool) -> Self;

    /// Every field holds the default that `reset` gives it.
    spec fn is_reset(&self) -> bool;

    fn is_active(&self) -> (r: bool)
        ensures
            r == self.spec_active(),
    ;

    fn set_active(&mut self, active: bool)
        ensures
            *final(self) == old(self).with_active(active),
            final(self).spec_active() == active,
    ;

    fn reset(&mut self)
        ensures
            final(self).is_reset(),
            final(self).spec_active(),
    ;
}

/// Position and motion of an entity. `half_size` is half of `size`;
/// `prev_position` is the position before the last integration step.
/// `scale` is fixed-point like the vectors: `PIXEL` is a scale of one.
#[derive(Clone, Copy, Debug, PartialEq, Eq, Structural)]
pub struct CTransform {
    pub active: bool,
    pub position: Vec2,
    pub prev_position: Vec2,
    pub velocity: Vec2,
    pub acceleration: Vec2,
    pub size: Vec2,
    pub half_size: Vec2,
    pub max_speed: i64,
    pub scale: i64,
    pub grounded: bool,
}

pub open spec fn zero_vec() -> Vec2 {
    Vec2 { x: 0, y: 0 }
}

/// The sum of two vectors, each coordinate saturating.
pub open spec fn sat_sum(a: Vec2, b: Vec2) -> Vec2 {
    Vec2 { x: clamp_i64(a.x + b.x) as i64, y: clamp_i64(a.y + b.y) as i64 }
}

/// The transform after one integration step: the velocity takes the
/// acceleration, then the position takes the new velocity.
pub open spec fn integrated(t: CTransform) -> CTransform {
    CTransform {
        prev_position: t.position,
        velocity: sat_sum(t.velocity, t.acceleration),
        position: sat_sum(t.position, sat_sum(t.velocity, t.acceleration)),
        ..t
    }
}

pub fn add_vec(a: Vec2, b: Vec2) -> (r: Vec2)
    ensures
        r == sat_sum(a, b),
{
    Vec2 { x: saturating_add(a.x, b.x), y: saturating_add(a.y, b.y) }
}

impl CTransform {
    pub fn new() -> (r: CTransform)
        ensures
            !r.active,
            r.position == zero_vec(),
            r.prev_position == zero_vec(),
            r.velocity == zero_vec(),
            r.acceleration == zero_vec(),
            r.size == zero_vec(),
            r.half_size == zero_vec(),
            r.max_speed == 4 * PIXEL,
            r.scale == PIXEL,
            !r.grounded,
    {
        CTransform {
            active: false,
            position: Vec2::zero(),
            prev_position: Vec2::zero(),
            velocity: Vec2::zero(),
            acceleration: Vec2::zero(),
            size: Vec2::zero(),
            half_size: Vec2::zero(),
            max_speed: 4 * PIXEL,
            scale: PIXEL,
            grounded: false,
        }
    }

    /// Overlap of this transform's box with the box at `other_position`
    /// with half-size `other_half_size`.
    pub fn get_overlap(&self, other_position: Vec2, other_half_size: Vec2) -> (r: Overlap)
        ensures
            r == box_overlap(self.position, self.half_size, other_position, other_half_size),
    {
        get_overlap(self.position, self.half_size, other_position, other_half_size)
    }

    /// One integration step: `prev_position = position`,
    /// `velocity += acceleration`, `position += velocity`.
    pub fn update(&mut self)
        ensures
            *final(self) == integrated(*old(self)),
    {
        self.prev_position = self.position;
        self.velocity = add_vec(self.velocity, self.acceleration);
        self.position = add_vec(self.position, self.velocity);
    }
}

impl Component for CTransform {
    open spec fn spec_active(&self) -> bool {
        self.active
    }

    open spec fn with_active(&self, active: bool) -> Self {
        CTransform { active, ..*self }
    }

    open spec fn is_reset(&self) -> bool {
        &&& self.position == zero_vec()
        &&& self.prev_position == zero_vec()
        &&& self.velocity == zero_vec()
        &&& self.acceleration == zero_vec()
        &&& self.size == zero_vec()
        &&& self.half_size == zero_vec()
        &&& self.max_speed == 0
        &&& self.scale == PIXEL
        &&& !self.grounded
    }

    fn is_active(&self) -> (r: bool) {
        self.active
    }

    fn set_active(&mut self, active: bool) {
        self.active = active;
    }

    fn reset(&mut self) {
        self.active = true;
        self.position = Vec2::zero();
        self.prev_position = Vec2::zero();
        self.velocity = Vec2::zero();
        self.acceleration = Vec2::zero();
        self.size = Vec2::zero();
        self.half_size = Vec2::zero();
        self.max_speed = 0;
        self.scale = PIXEL;
        self.grounded = false;
    }
}

/// A countdown, in frames.
#[derive(Clone, Copy, Debug, PartialEq, Eq, Structural)]
pub struct CLifetime {
    pub active: bool,
    pub lifetime_duration: u64,
    pub lifetime_timer: u64,
}

impl CLifetime {
    pub fn new(lifetime: u64) -> (r: CLifetime)
        ensures
            !r.active,
            r.lifetime_duration == lifetime,
            r.lifetime_timer == lifetime,
    {
        CLifetime { active: false, lifetime_duration: lifetime, lifetime_timer: lifetime }
    }
}

/// `part / whole` in fixed point: `PIXEL` is the whole.
pub open spec fn fraction_of(part: int, whole: int) -> int {
    part * PIXEL / whole
}

impl CLifetime {
    /// The share of the lifetime still to run, in fixed point; none for a
    /// lifetime of zero frames.
    pub fn get_percentage_remaining(&self) -> (r: Option<i128>)
        ensures
            (r is None) == (self.lifetime_duration == 0),
            r is Some ==> r->0 == fraction_of(self.lifetime_timer as int, self.lifetime_duration as int),
    {
        if self.lifetime_duration == 0 {
            return None;
        }
        let t: i128 = self.lifetime_timer as i128;
        proof {
            assert(0 <= t * PIXEL <= 0x1_0000_0000_0000_0000 * PIXEL) by (nonlinear_arith)
                requires
                    0 <= t <= 0x1_0000_0000_0000_0000,
            ;
        }
        Some(t * PIXEL as i128 / self.lifetime_duration as i128)
    }

    /// The share of the lifetime that has run, in fixed point; none for a
    /// lifetime of zero frames.
    pub fn get_percentage_elapsed(&self) -> (r: Option<i128>)
        ensures
            (r is None) == (self.lifetime_duration == 0),
            r is Some ==> r->0 == PIXEL - fraction_of(
                self.lifetime_timer as int,
                self.lifetime_duration as int,
            ),
    {
        match self.get_percentage_remaining() {
            Some(remaining) => {
                proof {
                    assert(0 <= remaining <= self.lifetime_timer * PIXEL) by (nonlinear_arith)
                        requires
                            remaining == self.lifetime_timer * PIXEL / self.lifetime_duration as int,
                            self.lifetime_duration >= 1,
                            self.lifetime_timer >= 0,
                    ;
                    assert(self.lifetime_timer * PIXEL <= 0x1_0000_0000_0000_0000 * PIXEL) by (nonlinear_arith)
                        requires
                            self.lifetime_timer <= 0x1_0000_0000_0000_0000,
                    ;
                }
                Some(PIXEL as i128 - remaining)
            },
            None => None,
        }
    }
}

impl Component for CLifetime {
    open spec fn spec_active(&self) -> bool {
        self.active
    }

    open spec fn with_active(&self, active: bool) -> Self {
        CLifetime { active, ..*self }
    }

    open spec fn is_reset(&self) -> bool {
        self.lifetime_duration == 0 && self.lifetime_timer == 0
    }

    fn is_active(&self) -> (r: bool) {
        self.active
    }

    fn set_active(&mut self, active: bool) {
        self.active = active;
    }

    fn reset(&mut self) {
        self.active = true;
        self.lifetime_duration = 0;
        self.lifetime_timer = 0;
    }
}

/// Edges of one button: `pressed` and `released` hold for the one frame of
/// the transition, `held` for the whole time the button is down.
#[derive(Clone, Copy, Debug, PartialEq, Eq, Structural)]
pub struct ButtonState {
    pub pressed: bool,
    pub held: bool,
    pub released: bool,
}

pub open spec fn button_up() -> ButtonState {
    ButtonState { pressed: false, held: false, released: false }
}

impl ButtonState {
    pub fn new() -> (r: ButtonState)
        ensures
            r == button_up(),
    {
        ButtonState { pressed: false, held: false, released: false }
    }

    /// The button went down: `pressed` fires unless it was already held.
    pub fn press(&mut self)
        ensures
            final(self).held,
            final(self).pressed == (old(self).pressed || !old(self).held),
            final(self).released == old(self).released,
    {
        if !self.held {
            self.pressed = true;
            self.held = true;
        }
    }

    /// The button went up.
    pub fn release(&mut self)
        ensures
            !final(self).held,
            final(self).released,
            final(self).pressed == old(self).pressed,
    {
        self.held = false;
        self.released = true;
    }

    /// Ends the one-frame pulses; `held` stays.
    pub fn clear_edges(&mut self)
        ensures
            !final(self).pressed,
            !final(self).released,
            final(self).held == old(self).held,
    {
        self.pressed = false;
        self.released = false;
    }
}

/// The five buttons of the input component.
#[derive(Clone, Copy, Debug, PartialEq, Eq, Structural)]
pub enum Button {
    Up,
    Down,
    Left,
    Right,
    Space,
}

#[derive(Clone, Copy, Debug, PartialEq, Eq, Structural)]
pub struct CInput {
    pub active: bool,
    pub up: ButtonState,
    pub down: ButtonState,
    pub left: ButtonState,
    pub right: ButtonState,
    pub space: ButtonState,
}

impl CInput {
    pub fn new() -> (r: CInput)
        ensures
            !r.active,
            r.up == button_up(),
            r.down == button_up(),
            r.left == button_up(),
            r.right == button_up(),
            r.space == button_up(),
    {
        CInput {
            active: false,
            up: ButtonState::new(),
            down: ButtonState::new(),
            left: ButtonState::new(),
            right: ButtonState::new(),
            space: ButtonState::new(),
        }
    }

    pub open spec fn button(&self, b: Button) -> ButtonState {
        match b {
            Button::Up => self.up,
            Button::Down => self.down,
            Button::Left => self.left,
            Button::Right => self.right,
            Button::Space => self.space,
        }
    }

    /// Records a press edge of button `b`.
    pub fn press(&mut self, b: Button)
        ensures
            final(self).active == old(self).active,
            final(self).button(b).held,
            final(self).button(b).pressed == (old(self).button(b).pressed || !old(self).button(b).held),
            final(self).button(b).released == old(self).button(b).released,
            forall|o: Button| o != b ==> final(self).button(o) == old(self).button(o),
    {
        match b {
            Button::Up => self.up.press(),
            Button::Down => self.down.press(),
            Button::Left => self.left.press(),
            Button::Right => self.right.press(),
            Button::Space => self.space.press(),
        }
    }

    /// Records a release edge of button `b`.
    pub fn release(&mut self, b: Button)
        ensures
            final(self).active == old(self).active,
            !final(self).button(b).held,
            final(self).button(b).released,
            final(self).button(b).pressed == old(self).button(b).pressed,
            forall|o: Button| o != b ==> final(self).button(o) == old(self).button(o),
    {
        match b {
            Button::Up => self.up.release(),
            Button::Down => self.down.release(),
            Button::Left => self.left.release(),
            Button::Right => self.right.release(),
            Button::Space => self.space.release(),
        }
    }

    /// Clears the press and release edges of every button, at the start of
    /// a frame.
    pub fn clear_edges(&mut self)
        ensures
            final(self).active == old(self).active,
            forall|b: Button|
                !(#[trigger] final(self).button(b)).pressed && !final(self).button(b).released
                    && final(self).button(b).held == old(self).button(b).held,
    {
        self.up.clear_edges();
        self.down.clear_edges();
        self.left.clear_edges();
        self.right.clear_edges();
        self.space.clear_edges();
    }
}

impl Component for CInput {
    open spec fn spec_active(&self) -> bool {
        self.active
    }

    open spec fn with_active(&self, active: bool) -> Self {
        CInput { active, ..*self }
    }

    open spec fn is_reset(&self) -> bool {
        &&& self.up == button_up()
        &&& self.down == button_up()
        &&& self.left == button_up()
        &&& self.right == button_up()
        &&& self.space == button_up()
    }

    fn is_active(&self) -> (r: bool) {
        self.active
    }

    fn set_active(&mut self, active: bool) {
        self.active = active;
    }

    fn reset(&mut self) {
        self.active = true;
        self.up = ButtonState::new();
        self.down = ButtonState::new();
        self.left = ButtonState::new();
        self.right = ButtonState::new();
        self.space = ButtonState::new();
    }
}

/// Marker for entities that follow a basic behaviour.
#[derive(Clone, Copy, Debug, PartialEq, Eq, Structural)]
pub struct CAIBasic {
    pub active: bool,
}

impl CAIBasic {
    pub fn new() -> (r: CAIBasic)
        ensures
            !r.active,
    {
        CAIBasic { active: false }
    }
}

impl Component for CAIBasic {
    open spec fn spec_active(&self) -> bool {
        self.active
    }

    open spec fn with_active(&self, active: bool) -> Self {
        CAIBasic { active }
    }

    open spec fn is_reset(&self) -> bool {
        true
    }

    fn is_active(&self) -> (r: bool) {
        self.active
    }

    fn set_active(&mut self, active: bool) {
        self.active = active;
    }

    fn reset(&mut self) {
        self.active = true;
    }
}

/// Hit points, fixed-point.
#[derive(Clone, Copy, Debug, PartialEq, Eq, Structural)]
pub struct CHealth {
    pub active: bool,
    pub health: i64,
    pub max_health: i64,
}

impl CHealth {
    pub fn new(health: i64) -> (r: CHealth)
        ensures
            !r.active,
            r.health == health,
            r.max_health == health,
    {
        CHealth { active: false, health, max_health: health }
    }
}

impl Component for CHealth {
    open spec fn spec_active(&self) -> bool {
        self.active
    }

    open spec fn with_active(&self, active: bool) -> Self {
        CHealth { active, ..*self }
    }

    open spec fn is_reset(&self) -> bool {
        self.health == 0 && self.max_health == 0
    }

    fn is_active(&self) -> (r: bool) {
        self.active
    }

    fn set_active(&mut self, active: bool) {
        self.active = active;
    }

    fn reset(&mut self) {
        self.active = true;
        self.health = 0;
        self.max_health = 0;
    }
}

/// Damage dealt on contact, fixed-point.
#[derive(Clone, Copy, Debug, PartialEq, Eq, Structural)]
pub struct CDamage {
    pub active: bool,
    pub damage: i64,
}

impl CDamage {
    pub fn new(damage: i64) -> (r: CDamage)
        ensures
            !r.active,
            r.damage == damage,
    {
        CDamage { active: false, damage }
    }
}

impl Component for CDamage {
    open spec fn spec_active(&self) -> bool {
        self.active
    }

    open spec fn with_active(&self, active: bool) -> Self {
        CDamage { active, ..*self }
    }

    open spec fn is_reset(&self) -> bool {
        self.damage == 0
    }

    fn is_active(&self) -> (r: bool) {
        self.active
    }

    fn set_active(&mut self, active: bool) {
        self.active = active;
    }

    fn reset(&mut self) {
        self.active = true;
        self.damage = 0;
    }
}

} // verus!
