use vstd::prelude::*;

use crate::camera::CameraTarget;
use crate::components::aiming::{aim_after, Aiming, AimingChild, QUARTER_TURN};
use crate::components::facing::{facing_after, Facing};
use crate::input::{neutral_input, PlayerInput};
use crate::store::{
    bare_entity, entities_wf, entity_wf, CollisionGroups, Entity, Muzzle, World, GROUP_1, GROUP_2,
};
use crate::timer::{ticked, Countdown};
use crate::units::{div_trunc, Transform, Vector, TICKS_PER_SECOND, UNIT};

verus! {

/// Horizontal speed at full deflection, per axis unit (thousandths of a pixel per second).
pub const RUN_SPEED: i64 = 150;

/// Vertical speed given by a jump, in thousandths of a pixel per second.
pub const JUMP_SPEED: i64 = 384_000;

/// Speed of a projectile along the muzzle direction, per thousandth of the unit vector.
pub const BULLET_SPEED: i64 = 400;

/// Ticks between two shots of a gun.
pub const GUN_COOLDOWN_TICKS: u64 = 6;

/// Seconds a projectile lives.
pub const BULLET_LIFETIME_SECONDS: u32 = 2;

/// Starting health of a player.
pub const PLAYER_HEALTH: i64 = 100;

/// Marks the entity controlled by input slot `handle`; keeps the previous tick's
/// input to tell presses and releases apart.
#[derive(PartialEq, Eq, Structural, Clone, Copy, Debug)]
pub struct Player {
    pub handle: usize,
    pub last_input: PlayerInput,
}

/// Whether the entity rests on static geometry, as probed at the start of the tick.
#[derive(PartialEq, Eq, Structural, Clone, Copy, Debug)]
pub struct Standing {
    pub is_standing: bool,
}

impl Default for Standing {
    fn default() -> (r: Standing)
        ensures
            !r.is_standing,
    {
        Standing { is_standing: false }
    }
}

/// Hit points; the entity counts as dead at zero or below.
#[derive(PartialEq, Eq, Structural, Clone, Copy, Debug)]
pub struct Health {
    pub health: i64,
}

impl Health {
    pub fn new(health: i64) -> (r: Health)
        ensures
            r.health == health,
    {
        Health { health }
    }

    pub fn is_dead(&self) -> (r: bool)
        ensures
            r == (self.health <= 0),
    {
        self.health <= 0
    }
}

/// Time left before a transient entity is destroyed.
#[derive(PartialEq, Eq, Structural, Clone, Copy, Debug)]
pub struct Lifetime {
    pub timer: Countdown,
}

impl Lifetime {
    pub fn from_seconds(seconds: u32) -> (r: Lifetime)
        ensures
            r.timer.duration == seconds * TICKS_PER_SECOND,
            r.timer.remaining == seconds * TICKS_PER_SECOND,
            !r.timer.finished(),
    {
        Lifetime { timer: Countdown::new(seconds as u64 * TICKS_PER_SECOND) }
    }

    pub fn from_ticks(ticks: u64) -> (r: Lifetime)
        ensures
            r.timer.duration == ticks,
            r.timer.remaining == ticks,
            !r.timer.finished(),
    {
        Lifetime { timer: Countdown::new(ticks) }
    }
}

/// A weapon held by the player entity `holder`. It may fire once `shot_timer` has
/// finished; a full-auto gun fires while the button is held, another only on a press.
#[derive(PartialEq, Eq, Structural, Clone, Copy, Debug)]
pub struct Gun {
    pub shot_timer: Countdown,
    pub full_auto: bool,
    pub holder: u64,
}

/// Marks a projectile fired by a gun.
#[derive(PartialEq, Eq, Structural, Clone, Copy, Debug)]
pub struct Bullet;

/// Animation clips a player can show.
#[derive(PartialEq, Eq, Structural, Clone, Copy, Debug)]
pub enum AnimKind {
    Idle,
    Running,
    Jumping,
}

/// The clip a player shows, and the tick at which it was last started.
#[derive(PartialEq, Eq, Structural, Clone, Copy, Debug)]
pub struct Animation {
    pub current: Option<AnimKind>,
    pub started_at: u64,
}

/// The input that slot `p.handle` gives this tick; a slot without input is neutral.
pub open spec fn input_for(inputs: Seq<PlayerInput>, p: Player) -> PlayerInput {
    if p.handle < inputs.len() {
        inputs[p.handle as int]
    } else {
        neutral_input()
    }
}

/// A player entity's input slot is among the `slots` given to the tick.
pub open spec fn has_slot(e: Entity, slots: nat) -> bool {
    e.player matches Some(p) ==> p.handle < slots
}

pub fn input_of_player(inputs: &Vec<PlayerInput>, p: &Player) -> (r: PlayerInput)
    requires
        p.handle < inputs@.len(),
    ensures
        r == inputs@[p.handle as int],
        r == input_for(inputs@, *p),
{
    inputs[p.handle]
}


/// Movement and facing: horizontal velocity follows the axis at once, facing turns
/// outside the dead-zone, and a jump press while standing launches upward.
pub open spec fn moved(e: Entity, inputs: Seq<PlayerInput>) -> Entity {
    match (e.player, e.velocity, e.facing, e.standing) {
        (Some(p), Some(v), Some(f), Some(s)) => {
            let i = input_for(inputs, p);
            let vy = if i.jump && !p.last_input.jump && s.is_standing {
                JUMP_SPEED
            } else {
                v.y
            };
            Entity {
                facing: Some(facing_after(f, i.axis_x as int)),
                velocity: Some(Vector { x: (i.axis_x * RUN_SPEED) as i64, y: vy }),
                ..e
            }
        },
        _ => e,
    }
}

/// Aiming: the vertical axis turns a player's aim.
pub open spec fn aimed(e: Entity, inputs: Seq<PlayerInput>) -> Entity {
    match (e.aiming, e.player) {
        (Some(a), Some(p)) => Entity {
            aiming: Some(aim_after(a, input_for(inputs, p).axis_y as int)),
            ..e
        },
        _ => e,
    }
}

/// Grounded detection: an entity with a collider stands exactly when the downward
/// probe found static geometry.
pub open spec fn stood(e: Entity) -> Entity {
    match (e.standing, e.half_extents) {
        (Some(_), Some(_)) => Entity {
            standing: Some(Standing { is_standing: e.ground_contact }),
            ..e
        },
        _ => e,
    }
}

pub open spec fn play(k: AnimKind, now: u64) -> Animation {
    Animation { current: Some(k), started_at: now }
}

/// The clip shown after one tick. A clip already playing is not restarted.
pub open spec fn next_animation(an: Animation, standing: bool, x: int, prev_x: int, now: u64) -> Animation {
    if standing {
        if x != 0 && an.current != Some(AnimKind::Running) {
            play(AnimKind::Running, now)
        } else if (prev_x != 0 && x == 0) || an.current == Some(AnimKind::Jumping) {
            play(AnimKind::Idle, now)
        } else {
            an
        }
    } else if an.current != Some(AnimKind::Jumping) {
        play(AnimKind::Jumping, now)
    } else {
        an
    }
}

pub open spec fn animated(e: Entity, inputs: Seq<PlayerInput>, now: u64) -> Entity {
    match (e.animation, e.player, e.standing) {
        (Some(an), Some(p), Some(s)) => Entity {
            animation: Some(
                next_animation(
                    an,
                    s.is_standing,
                    input_for(inputs, p).axis_x as int,
                    p.last_input.axis_x as int,
                    now,
                ),
            ),
            ..e
        },
        _ => e,
    }
}

/// The sprite is mirrored exactly when the entity faces left.
pub open spec fn flipped(e: Entity) -> Entity {
    match e.facing {
        Some(f) => Entity {
            transform: Transform {
                scale_x: if f == Facing::Left { -1i64 } else { 1i64 },
                ..e.transform
            },
            ..e
        },
        None => e,
    }
}

/// A player keeps this tick's input to find presses and releases in the next one.
pub open spec fn recorded(e: Entity, inputs: Seq<PlayerInput>) -> Entity {
    match e.player {
        Some(p) => Entity { player: Some(Player { last_input: input_for(inputs, p), ..p }), ..e },
        None => e,
    }
}

pub fn move_player(e: &mut Entity, inputs: &Vec<PlayerInput>)
    requires
        has_slot(*old(e), inputs@.len()),
    ensures
        *final(e) == moved(*old(e), inputs@),
{
    if let (Some(p), Some(v), Some(f), Some(s)) = (e.player, e.velocity, e.facing, e.standing) {
        let i = input_of_player(inputs, &p);
        let mut facing = f;
        facing.follow_axis(i.axis_x);
        let mut vel = v;
        vel.x = i.axis_x as i64 * RUN_SPEED;
        if i.jump && !p.last_input.jump && s.is_standing {
            vel.y = JUMP_SPEED;
        }
        e.facing = Some(facing);
        e.velocity = Some(vel);
    }
}

pub fn change_aim(e: &mut Entity, inputs: &Vec<PlayerInput>)
    requires
        has_slot(*old(e), inputs@.len()),
    ensures
        *final(e) == aimed(*old(e), inputs@),
{
    if let (Some(a), Some(p)) = (e.aiming, e.player) {
        let i = input_of_player(inputs, &p);
        let mut aiming = a;
        aiming.change_aim(i.axis_y);
        e.aiming = Some(aiming);
    }
}

/// Length of the downward probe for an entity with these collider half-extents:
/// one pixel past its lower edge.
pub fn ground_probe_length(half_extents: Vector) -> (r: i64)
    requires
        half_extents.y <= i64::MAX - UNIT,
    ensures
        r == half_extents.y + UNIT,
{
    half_extents.y + UNIT
}

/// A downward probe the physics side casts before the tick, against static
/// geometry only; its hit becomes the entity's `ground_contact`.
#[derive(PartialEq, Eq, Structural, Clone, Copy, Debug)]
pub struct GroundProbe {
    pub entity: u64,
    pub origin: Vector,
    pub length: i64,
}

/// The probes for the entities of `s` that track standing and have a collider, in order.
pub open spec fn probes_of(s: Seq<Entity>) -> Seq<GroundProbe>
    decreases s.len(),
{
    if s.len() == 0 {
        Seq::empty()
    } else {
        let r = probes_of(s.drop_last());
        let e = s.last();
        match (e.standing, e.half_extents) {
            (Some(_), Some(h)) => r.push(
                GroundProbe {
                    entity: e.id,
                    origin: e.transform.translation,
                    length: (h.y + UNIT) as i64,
                },
            ),
            _ => r,
        }
    }
}

impl World {
    /// The ground probes the physics side must cast before the next tick.
    pub fn ground_probes(&self) -> (r: Vec<GroundProbe>)
        requires
            self.wf(),
        ensures
            r@ == probes_of(self@.entities),
    {
        let mut out: Vec<GroundProbe> = Vec::new();
        let n = self.entities.len();
        for i in 0..n
            invariant
                n == self.entities@.len(),
                self.wf(),
                out@ == probes_of(self.entities@.take(i as int)),
        {
            assert(self.entities@.take(i + 1).drop_last() =~= self.entities@.take(i as int));
            let e = self.entities[i];
            assert(entity_wf(self.entities@[i as int]));
            if let (Some(_), Some(h)) = (e.standing, e.half_extents) {
                out.push(
                    GroundProbe {
                        entity: e.id,
                        origin: e.transform.translation,
                        length: ground_probe_length(h),
                    },
                );
            }
        }
        assert(self.entities@.take(n as int) =~= self.entities@);
        out
    }
}

pub fn check_if_standing(e: &mut Entity)
    ensures
        *final(e) == stood(*old(e)),
{
    if e.standing.is_some() && e.half_extents.is_some() {
        e.standing = Some(Standing { is_standing: e.ground_contact });
    }
}

pub fn next_clip(an: Animation, standing: bool, x: i32, prev_x: i32, now: u64) -> (r: Animation)
    ensures
        r == next_animation(an, standing, x as int, prev_x as int, now),
{
    if standing {
        if x != 0 && an.current != Some(AnimKind::Running) {
            Animation { current: Some(AnimKind::Running), started_at: now }
        } else if (prev_x != 0 && x == 0) || an.current == Some(AnimKind::Jumping) {
            Animation { current: Some(AnimKind::Idle), started_at: now }
        } else {
            an
        }
    } else if an.current != Some(AnimKind::Jumping) {
        Animation { current: Some(AnimKind::Jumping), started_at: now }
    } else {
        an
    }
}

pub fn animate_player(e: &mut Entity, inputs: &Vec<PlayerInput>, now: u64)
    requires
        has_slot(*old(e), inputs@.len()),
    ensures
        *final(e) == animated(*old(e), inputs@, now),
{
    if let (Some(an), Some(p), Some(s)) = (e.animation, e.player, e.standing) {
        let i = input_of_player(inputs, &p);
        e.animation = Some(next_clip(an, s.is_standing, i.axis_x, p.last_input.axis_x, now));
    }
}

pub fn flip_facing(e: &mut Entity)
    ensures
        *final(e) == flipped(*old(e)),
{
    if let Some(f) = e.facing {
        e.transform.scale_x = f.scale_x();
    }
}

pub fn record_input(e: &mut Entity, inputs: &Vec<PlayerInput>)
    requires
        has_slot(*old(e), inputs@.len()),
    ensures
        *final(e) == recorded(*old(e), inputs@),
{
    if let Some(p) = e.player {
        let i = input_of_player(inputs, &p);
        e.player = Some(Player { last_input: i, ..p });
    }
}


/// Whether the holder asks this gun to fire: while the button is held for a
/// full-auto gun, on the tick it is pressed otherwise.
pub open spec fn trigger_pulled(g: Gun, p: Player, i: PlayerInput) -> bool {
    i.shoot && (g.full_auto || !p.last_input.shoot)
}

/// One tick of a gun's cooldown: it counts down whatever happens, and a gun that is
/// `ready` fires once the countdown has finished, which starts it over.
pub open spec fn gun_step(c: Countdown, ready: bool) -> (Countdown, bool) {
    let t = ticked(c);
    if ready && t.done {
        (Countdown { remaining: t.duration, done: false, ..t }, true)
    } else {
        (t, false)
    }
}

/// Initial velocity of a projectile: the muzzle direction at projectile speed, plus
/// half the shooter's velocity.
pub open spec fn projectile_velocity(dir: Vector, v: Vector) -> Vector {
    Vector {
        x: (dir.x * BULLET_SPEED + div_trunc(v.x as int, 2)) as i64,
        y: (dir.y * BULLET_SPEED + div_trunc(v.y as int, 2)) as i64,
    }
}

/// A projectile `id` leaving muzzle `m` of a shooter moving at `v`: a top-level
/// entity in the projectile group that only meets the first group, so projectiles
/// pass through each other.
pub open spec fn projectile(id: u64, now: u64, m: Muzzle, v: Vector) -> Entity {
    Entity {
        velocity: Some(projectile_velocity(m.direction, v)),
        half_extents: Some(Vector { x: UNIT, y: UNIT }),
        collision_groups: Some(CollisionGroups { memberships: GROUP_2, filter: GROUP_1 }),
        lifetime: Some(
            Lifetime {
                timer: Countdown {
                    duration: (BULLET_LIFETIME_SECONDS * TICKS_PER_SECOND) as u64,
                    remaining: (BULLET_LIFETIME_SECONDS * TICKS_PER_SECOND) as u64,
                    done: false,
                },
            },
        ),
        bullet: Some(Bullet),
        ..bare_entity(id, None, now, Transform { translation: m.position, scale_x: 1, rotation: 0 })
    }
}

pub fn trigger_is_pulled(g: &Gun, p: &Player, i: &PlayerInput) -> (r: bool)
    ensures
        r == trigger_pulled(*g, *p, *i),
{
    i.shoot && (g.full_auto || !p.last_input.shoot)
}

/// Advances the cooldown; fires if `ready` and the cooldown has finished.
pub fn gun_time(c: &mut Countdown, ready: bool) -> (fired: bool)
    ensures
        (*final(c), fired) == gun_step(*old(c), ready),
{
    c.tick();
    if ready && c.finished() {
        c.reset();
        true
    } else {
        false
    }
}

pub fn fire_velocity(dir: Vector, v: Vector) -> (r: Vector)
    requires
        -UNIT <= dir.x <= UNIT,
        -UNIT <= dir.y <= UNIT,
    ensures
        r == projectile_velocity(dir, v),
{
    Vector { x: dir.x * BULLET_SPEED + v.x / 2, y: dir.y * BULLET_SPEED + v.y / 2 }
}

pub fn spawn_projectile(id: u64, now: u64, m: Muzzle, v: Vector) -> (r: Entity)
    requires
        -UNIT <= m.direction.x <= UNIT,
        -UNIT <= m.direction.y <= UNIT,
    ensures
        r == projectile(id, now, m, v),
{
    let mut e = Entity::new(id, None, now, Transform { translation: m.position, scale_x: 1, rotation: 0 });
    e.velocity = Some(fire_velocity(m.direction, v));
    e.half_extents = Some(Vector { x: UNIT, y: UNIT });
    e.collision_groups = Some(CollisionGroups { memberships: GROUP_2, filter: GROUP_1 });
    e.lifetime = Some(Lifetime::from_seconds(BULLET_LIFETIME_SECONDS));
    e.bullet = Some(Bullet);
    e
}


/// Where a player appears, in thousandths of a pixel.
pub const PLAYER_START_X: i64 = 480_000;
pub const PLAYER_START_Y: i64 = 256_000;

/// Collider half-extents of a player: a capsule eight pixels wide on each side and
/// sixteen pixels tall on each side.
pub const PLAYER_HALF_WIDTH: i64 = 8_000;
pub const PLAYER_HALF_HEIGHT: i64 = 16_000;

/// Radius the camera keeps around a player.
pub const PLAYER_CAMERA_RADIUS: i64 = 100_000;

/// The player entity `id` for input slot `handle`, facing right with its aim level.
pub open spec fn player_body(id: u64, handle: usize, now: u64) -> Entity {
    Entity {
        velocity: Some(Vector { x: 0, y: 0 }),
        half_extents: Some(Vector { x: PLAYER_HALF_WIDTH, y: PLAYER_HALF_HEIGHT }),
        facing: Some(Facing::Right),
        camera_target: Some(CameraTarget { radius: PLAYER_CAMERA_RADIUS }),
        aiming: Some(Aiming { angle: 0, max_angle: QUARTER_TURN, min_angle: (-QUARTER_TURN) as i64 }),
        standing: Some(Standing { is_standing: false }),
        player: Some(Player { handle, last_input: neutral_input() }),
        health: Some(Health { health: PLAYER_HEALTH }),
        animation: Some(Animation { current: None, started_at: now }),
        ..bare_entity(
            id,
            None,
            now,
            Transform {
                translation: Vector { x: PLAYER_START_X, y: PLAYER_START_Y },
                scale_x: 1,
                rotation: 0,
            },
        )
    }
}

/// The arm `id` of player `parent`, turned to the player's aim.
pub open spec fn player_arm(id: u64, parent: u64, now: u64) -> Entity {
    Entity {
        aiming_child: Some(AimingChild),
        ..bare_entity(
            id,
            Some(parent),
            now,
            Transform { translation: Vector { x: 4_000, y: 4_000 }, scale_x: 1, rotation: 0 },
        )
    }
}

/// The gun `id` held in arm `parent` of player `holder`.
pub open spec fn player_gun(id: u64, parent: u64, holder: u64, now: u64) -> Entity {
    Entity {
        gun: Some(
            Gun {
                shot_timer: Countdown {
                    duration: GUN_COOLDOWN_TICKS,
                    remaining: GUN_COOLDOWN_TICKS,
                    done: false,
                },
                full_auto: true,
                holder,
            },
        ),
        ..bare_entity(
            id,
            Some(parent),
            now,
            Transform { translation: Vector { x: 12_000, y: 2_000 }, scale_x: 1, rotation: 0 },
        )
    }
}

impl World {
    /// Creates a player for input slot `handle` with its arm and gun; returns the
    /// player's identifier.
    pub fn spawn_player(&mut self, handle: usize) -> (r: u64)
        requires
            old(self).wf(),
            old(self).next_id <= u64::MAX - 3,
        ensures
            final(self).wf(),
            r == old(self).next_id,
            final(self)@.entities == old(self)@.entities + seq![
                player_body(r, handle, old(self).now),
                player_arm((r + 1) as u64, r, old(self).now),
                player_gun((r + 2) as u64, (r + 1) as u64, r, old(self).now),
            ],
            final(self).next_id == old(self).next_id + 3,
            final(self).now == old(self).now,
            final(self).bounds == old(self).bounds,
    {
        let id = self.next_id;
        let now = self.now;
        let mut body = Entity::new(id, None, now, Transform::from_xy(PLAYER_START_X, PLAYER_START_Y));
        body.velocity = Some(Vector::new(0, 0));
        body.half_extents = Some(Vector::new(PLAYER_HALF_WIDTH, PLAYER_HALF_HEIGHT));
        body.facing = Some(Facing::Right);
        body.camera_target = Some(CameraTarget::with_radius(PLAYER_CAMERA_RADIUS));
        body.aiming = Some(Aiming::new());
        body.standing = Some(Standing { is_standing: false });
        body.player = Some(Player { handle, last_input: PlayerInput::neutral() });
        body.health = Some(Health::new(PLAYER_HEALTH));
        body.animation = Some(Animation { current: None, started_at: now });
        let mut arm = Entity::new(id + 1, Some(id), now, Transform::from_xy(4_000, 4_000));
        arm.aiming_child = Some(AimingChild);
        let mut gun = Entity::new(id + 2, Some(id + 1), now, Transform::from_xy(12_000, 2_000));
        gun.gun = Some(
            Gun { shot_timer: Countdown::new(GUN_COOLDOWN_TICKS), full_auto: true, holder: id },
        );
        let ghost before = self.entities@;
        self.entities.push(body);
        self.entities.push(arm);
        self.entities.push(gun);
        self.next_id = id + 3;
        assert(self.entities@ =~= before + seq![body, arm, gun]);
        assert(entities_wf(self.entities@, self.next_id)) by {
            assert forall|i: int| 0 <= i < self.entities@.len() implies entity_wf(
                #[trigger] self.entities@[i],
            ) by {
                if i < before.len() {
                    assert(entity_wf(before[i]));
                }
            }
        }
        id
    }
}


/// The cooldown after one gun tick per element of `ready`.
pub open spec fn gun_run(c: Countdown, ready: Seq<bool>) -> Countdown
    decreases ready.len(),
{
    if ready.len() == 0 {
        c
    } else {
        gun_step(gun_run(c, ready.drop_last()), ready.last()).0
    }
}

/// Whether the gun fires on tick `n` of the sequence `ready`.
pub open spec fn fires_at(c: Countdown, ready: Seq<bool>, n: int) -> bool {
    gun_step(gun_run(c, ready.take(n)), ready[n]).1
}

pub(crate) proof fn lemma_gun_run_next(c: Countdown, ready: Seq<bool>, n: int)
    requires
        0 <= n < ready.len(),
    ensures
        gun_run(c, ready.take(n + 1)) == gun_step(gun_run(c, ready.take(n)), ready[n]).0,
{
    assert(ready.take(n + 1).drop_last() =~= ready.take(n));
}

proof fn lemma_cooldown_after_fire(c: Countdown, ready: Seq<bool>, i: int, n: int)
    requires
        0 <= i < n <= ready.len(),
        fires_at(c, ready, i),
    ensures
        gun_run(c, ready.take(n)).duration == c.duration,
        gun_run(c, ready.take(n)).remaining <= c.duration,
        gun_run(c, ready.take(n)).remaining + (n - i - 1) >= c.duration,
    decreases n - i,
{
    lemma_gun_duration(c, ready, i);
    lemma_gun_run_next(c, ready, n - 1);
    if n > i + 1 {
        lemma_cooldown_after_fire(c, ready, i, n - 1);
    }
}

proof fn lemma_gun_duration(c: Countdown, ready: Seq<bool>, n: int)
    requires
        0 <= n <= ready.len(),
    ensures
        gun_run(c, ready.take(n)).duration == c.duration,
    decreases n,
{
    if n > 0 {
        lemma_gun_run_next(c, ready, n - 1);
        lemma_gun_duration(c, ready, n - 1);
    }
}

/// Rate limit: whatever the trigger does, two shots of a gun are at least its
/// cooldown apart.
pub proof fn lemma_gun_cadence(c: Countdown, ready: Seq<bool>, i: int, j: int)
    requires
        0 <= i < j < ready.len(),
        fires_at(c, ready, i),
        fires_at(c, ready, j),
    ensures
        j - i >= c.duration,
{
    lemma_cooldown_after_fire(c, ready, i, j);
}

} // verus!
