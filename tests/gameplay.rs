use rusted_chrome::components::facing::Facing;
use rusted_chrome::input::PlayerInput;
use rusted_chrome::player::{AnimKind, GroundProbe, Lifetime, Standing, JUMP_SPEED};
use rusted_chrome::store::{CollisionGroups, Entity, Muzzle, World, GROUP_1, GROUP_2};
use rusted_chrome::units::{Transform, Vector};
use rusted_chrome::world::GameWorld;

fn input(x: i32, y: i32, jump: bool, shoot: bool) -> PlayerInput {
    PlayerInput { axis_x: x, axis_y: y, jump, shoot }
}

fn world_with_player() -> (World, u64) {
    let mut w = World::new(GameWorld::default());
    let id = w.spawn_player(0);
    (w, id)
}

/// A copy whose gun is held by the arm instead of the player.
fn with_gun_held_by_arm(w: &World, player: u64) -> World {
    let mut entities = w.entities.clone();
    for e in entities.iter_mut() {
        if let Some(g) = e.gun.as_mut() {
            g.holder = player + 1;
        }
    }
    World { entities, next_id: w.next_id, now: w.now, bounds: w.bounds }
}

fn set_standing(w: &mut World, id: u64, standing: bool) {
    let i = w.entities.iter().position(|e| e.id == id).unwrap();
    w.entities[i].standing = Some(Standing { is_standing: standing });
    w.entities[i].ground_contact = standing;
}

#[test]
fn spawn_player_builds_body_arm_and_gun() {
    let (w, id) = world_with_player();
    assert_eq!(w.entities.len(), 3);
    assert_eq!(w.next_id, 3);
    let body = w.get(id).unwrap();
    assert_eq!(body.facing, Some(Facing::Right));
    assert_eq!(body.transform.translation, Vector { x: 480_000, y: 256_000 });
    let arm = w.get(id + 1).unwrap();
    assert_eq!(arm.parent, Some(id));
    assert!(arm.aiming_child.is_some());
    let gun = w.get(id + 2).unwrap();
    assert_eq!(gun.parent, Some(id + 1));
    assert_eq!(gun.gun.unwrap().holder, id);
    assert_eq!(gun.gun.unwrap().shot_timer.remaining, 6);
}

#[test]
fn run_right_while_standing() {
    let (mut w, id) = world_with_player();
    set_standing(&mut w, id, true);
    w.entities[0].animation.as_mut().unwrap().current = Some(AnimKind::Idle);
    w.tick(&vec![input(1000, 0, false, false)]);
    let p = w.get(id).unwrap();
    assert_eq!(p.velocity.unwrap().x, 150_000);
    assert_eq!(p.facing, Some(Facing::Right));
    assert_eq!(p.animation.unwrap().current, Some(AnimKind::Running));
    assert_eq!(p.transform.scale_x, 1);
}

#[test]
fn run_left_mirrors_sprite() {
    let (mut w, id) = world_with_player();
    set_standing(&mut w, id, true);
    w.tick(&vec![input(-1000, 0, false, false)]);
    let p = w.get(id).unwrap();
    assert_eq!(p.velocity.unwrap().x, -150_000);
    assert_eq!(p.facing, Some(Facing::Left));
    assert_eq!(p.transform.scale_x, -1);
}

#[test]
fn jump_uses_standing_read_before_the_impulse() {
    let (mut w, id) = world_with_player();
    set_standing(&mut w, id, true);
    // The probe of this tick finds no ground, but the jump reads the standing flag first.
    let i = w.entities.iter().position(|e| e.id == id).unwrap();
    w.entities[i].ground_contact = false;
    w.tick(&vec![input(0, 0, true, false)]);
    let p = w.get(id).unwrap();
    assert_eq!(p.velocity.unwrap().y, JUMP_SPEED);
    assert_eq!(p.velocity.unwrap().y, 384_000);
    assert_eq!(p.standing, Some(Standing { is_standing: false }));
    assert_eq!(p.animation.unwrap().current, Some(AnimKind::Jumping));
}

#[test]
fn no_air_jump_and_no_repeat_while_held() {
    let (mut w, id) = world_with_player();
    set_standing(&mut w, id, false);
    w.tick(&vec![input(0, 0, true, false)]);
    assert_eq!(w.get(id).unwrap().velocity.unwrap().y, 0);
    set_standing(&mut w, id, true);
    // Still held from the previous tick: not a new press.
    w.tick(&vec![input(0, 0, true, false)]);
    assert_eq!(w.get(id).unwrap().velocity.unwrap().y, 0);
}

#[test]
fn jumping_clip_is_not_restarted_while_airborne() {
    let (mut w, id) = world_with_player();
    w.tick(&vec![input(0, 0, false, false)]);
    let first = w.get(id).unwrap().animation.unwrap();
    assert_eq!(first.current, Some(AnimKind::Jumping));
    assert_eq!(first.started_at, 0);
    w.tick(&vec![input(0, 0, false, false)]);
    assert_eq!(w.get(id).unwrap().animation.unwrap(), first);
}

#[test]
fn landing_and_release_return_to_idle() {
    let (mut w, id) = world_with_player();
    w.tick(&vec![input(0, 0, false, false)]);
    set_standing(&mut w, id, true);
    w.tick(&vec![input(0, 0, false, false)]);
    assert_eq!(w.get(id).unwrap().animation.unwrap().current, Some(AnimKind::Idle));
    w.tick(&vec![input(500, 0, false, false)]);
    assert_eq!(w.get(id).unwrap().animation.unwrap().current, Some(AnimKind::Running));
    w.tick(&vec![input(0, 0, false, false)]);
    let an = w.get(id).unwrap().animation.unwrap();
    assert_eq!(an.current, Some(AnimKind::Idle));
    assert_eq!(an.started_at, 3);
}

#[test]
fn aim_child_follows_aim() {
    let (mut w, id) = world_with_player();
    w.tick(&vec![input(0, 1000, false, false)]);
    assert_eq!(w.get(id).unwrap().aiming.unwrap().angle, 33_333);
    w.tick(&vec![input(0, 0, false, false)]);
    assert_eq!(w.get(id + 1).unwrap().transform.rotation, 33_333);
}

fn arm_muzzle(w: &mut World, gun: u64) {
    let m = Muzzle { position: Vector { x: 10_000, y: 20_000 }, direction: Vector { x: 1000, y: 0 } };
    assert!(w.set_muzzle(gun, m));
}

fn bullets(w: &World) -> Vec<Entity> {
    w.entities.iter().filter(|e| e.bullet.is_some()).cloned().collect()
}

#[test]
fn gun_fires_once_per_cooldown_while_held() {
    let (mut w, id) = world_with_player();
    arm_muzzle(&mut w, id + 2);
    let mut fired_at = Vec::new();
    for t in 0..20u64 {
        let before = w.next_id;
        w.tick(&vec![input(0, 0, false, true)]);
        if w.next_id > before {
            fired_at.push(t);
        }
    }
    assert_eq!(fired_at, vec![5, 11, 17]);
    assert_eq!(bullets(&w).len(), 3);
}

#[test]
fn projectile_inherits_half_the_shooter_velocity() {
    let (mut w, id) = world_with_player();
    arm_muzzle(&mut w, id + 2);
    assert!(w.apply_physics(id, Vector { x: 0, y: 0 }, Vector { x: 1000, y: -3 }, false));
    for _ in 0..6 {
        // Movement sets the horizontal velocity to 150 px/s before the gun fires.
        w.tick(&vec![input(1000, 0, false, true)]);
        // Keep the shooter's velocity as the physics pass would report it.
        assert!(w.apply_physics(id, Vector { x: 0, y: 0 }, Vector { x: 1000, y: -3 }, false));
    }
    let b = bullets(&w);
    assert_eq!(b.len(), 1);
    assert_eq!(b[0].velocity, Some(Vector { x: 400_000 + 75_000, y: -1 }));
    assert_eq!(b[0].transform.translation, Vector { x: 10_000, y: 20_000 });
    assert_eq!(b[0].lifetime.unwrap().timer.remaining, 120);
    assert!(!b[0].lifetime.unwrap().timer.finished());
    assert_eq!(b[0].parent, None);
    assert_eq!(
        b[0].collision_groups,
        Some(CollisionGroups { memberships: GROUP_2, filter: GROUP_1 })
    );
}

#[test]
fn no_shot_without_a_muzzle_pose() {
    let (mut w, _) = world_with_player();
    for _ in 0..20 {
        w.tick(&vec![input(0, 0, false, true)]);
    }
    assert!(bullets(&w).is_empty());
}

#[test]
fn projectile_lives_exactly_its_lifetime() {
    let (mut w, id) = world_with_player();
    arm_muzzle(&mut w, id + 2);
    for _ in 0..6 {
        w.tick(&vec![input(0, 0, false, true)]);
    }
    let b = bullets(&w)[0];
    assert_eq!(b.spawned_at, 5);
    let none = vec![input(0, 0, false, false)];
    // Ticks 6 to 124 leave it in place; tick 125 = 5 + 120 removes it.
    while w.now < 125 {
        w.tick(&none);
        assert!(w.get(b.id).is_some(), "gone early at tick {}", w.now - 1);
    }
    w.tick(&none);
    assert!(w.get(b.id).is_none());
}

fn transient(id: u64, now: u64, ticks: u64) -> Entity {
    let mut e = Entity::new(id, None, now, Transform::from_xy(0, 0));
    e.lifetime = Some(Lifetime::from_ticks(ticks));
    e
}

#[test]
fn zero_and_one_tick_lifetimes() {
    let mut w = World::new(GameWorld::default());
    w.entities.push(transient(0, 0, 0));
    w.entities.push(transient(1, 0, 1));
    w.next_id = 2;
    w.tick(&vec![]);
    assert!(w.get(0).is_none());
    assert!(w.get(1).is_some());
    w.tick(&vec![]);
    assert!(w.get(1).is_none());
}

#[test]
fn expiry_takes_descendants_along() {
    let mut w = World::new(GameWorld::default());
    w.entities.push(transient(0, 0, 0));
    w.entities.push(Entity::new(1, Some(0), 0, Transform::from_xy(0, 0)));
    w.entities.push(Entity::new(2, Some(1), 0, Transform::from_xy(0, 0)));
    w.entities.push(Entity::new(3, None, 0, Transform::from_xy(0, 0)));
    w.next_id = 4;
    w.tick(&vec![]);
    let ids: Vec<u64> = w.entities.iter().map(|e| e.id).collect();
    assert_eq!(ids, vec![3]);
}

fn wrapping(id: u64, x: i64, y: i64, ext: i64) -> Entity {
    let mut e = Entity::new(id, None, 0, Transform::from_xy(x, y));
    e.half_extents = Some(Vector { x: ext, y: ext });
    e.velocity = Some(Vector { x: 7, y: 9 });
    e
}

#[test]
fn wrap_around_on_each_axis() {
    let mut w = World::new(GameWorld::default());
    // Half width 480 px, half height 270 px, half-extent 8 px.
    w.entities.push(wrapping(0, 488_001, 0, 8_000));
    w.entities.push(wrapping(1, 488_000, 0, 8_000));
    w.entities.push(wrapping(2, -488_001, 278_001, 8_000));
    w.entities.push(wrapping(3, 0, -278_001, 8_000));
    w.next_id = 4;
    w.tick(&vec![]);
    assert_eq!(w.get(0).unwrap().transform.translation, Vector { x: -488_000, y: 0 });
    assert_eq!(w.get(1).unwrap().transform.translation, Vector { x: 488_000, y: 0 });
    assert_eq!(w.get(2).unwrap().transform.translation, Vector { x: 488_000, y: -278_000 });
    assert_eq!(w.get(3).unwrap().transform.translation, Vector { x: 0, y: 278_000 });
    assert_eq!(w.get(0).unwrap().velocity, Some(Vector { x: 7, y: 9 }));
    w.tick(&vec![]);
    assert_eq!(w.get(0).unwrap().transform.translation, Vector { x: -488_000, y: 0 });
}

fn session() -> Vec<Vec<PlayerInput>> {
    let mut rows = Vec::new();
    for t in 0..300i32 {
        let x = [1000, -1000, 0, 50, -700][(t % 5) as usize];
        let y = [0, 1000, -1000][(t % 3) as usize];
        rows.push(vec![input(x, y, t % 7 == 0, t % 4 != 0), input(-x, y, t % 11 == 0, true)]);
    }
    rows
}

fn started() -> World {
    let mut w = World::new(GameWorld::default());
    let a = w.spawn_player(0);
    let b = w.spawn_player(1);
    let m = Muzzle { position: Vector { x: 1, y: 2 }, direction: Vector { x: 600, y: 800 } };
    assert!(w.set_muzzle(a + 2, m));
    assert!(w.set_muzzle(b + 2, m));
    w
}

#[test]
fn replay_is_deterministic() {
    let inputs = session();
    let mut first = started();
    let mut second = started();
    assert_eq!(first.run(&inputs), Ok(()));
    assert_eq!(second.run(&inputs), Ok(()));
    assert_eq!(first.entities, second.entities);
    assert_eq!(first.next_id, second.next_id);
    assert_eq!(first.now, 300);
    assert_eq!(second.now, 300);
    assert!(first.next_id > 6);
}

#[test]
fn replay_resumes_from_a_snapshot() {
    let inputs = session();
    let mut whole = started();
    assert_eq!(whole.run(&inputs), Ok(()));
    let mut part = started();
    assert_eq!(part.run(&inputs[..120].to_vec()), Ok(()));
    let snapshot_entities = part.entities.clone();
    let mut resumed = World { entities: snapshot_entities, next_id: part.next_id, now: part.now, bounds: part.bounds };
    assert_eq!(resumed.run(&inputs[120..].to_vec()), Ok(()));
    assert_eq!(resumed.entities, whole.entities);
    assert_eq!(resumed.now, whole.now);
}

#[test]
fn dead_entities_are_reported() {
    let (mut w, id) = world_with_player();
    assert!(w.dead_entities().is_empty());
    w.entities[0].health.as_mut().unwrap().health = 0;
    assert_eq!(w.dead_entities(), vec![id]);
}

#[test]
fn physics_write_back_reaches_the_entity() {
    let (mut w, id) = world_with_player();
    assert!(w.apply_physics(id, Vector { x: 5, y: 6 }, Vector { x: 7, y: 8 }, true));
    let p = w.get(id).unwrap();
    assert_eq!(p.transform.translation, Vector { x: 5, y: 6 });
    assert_eq!(p.velocity, Some(Vector { x: 7, y: 8 }));
    assert!(p.ground_contact);
    assert!(!w.apply_physics(99, Vector { x: 5, y: 6 }, Vector { x: 7, y: 8 }, true));
}

#[test]
fn new_lifetimes_are_not_finished() {
    assert!(!Lifetime::from_seconds(0).timer.finished());
    assert!(!Lifetime::from_ticks(0).timer.finished());
    assert_eq!(Lifetime::from_seconds(2).timer.remaining, 120);
}

#[test]
fn expired_parent_takes_grandchildren_at_its_own_tick() {
    let mut w = World::new(GameWorld::default());
    w.entities.push(transient(0, 0, 3));
    w.entities.push(Entity::new(1, Some(0), 0, Transform::from_xy(0, 0)));
    w.entities.push(Entity::new(2, Some(1), 0, Transform::from_xy(0, 0)));
    w.next_id = 3;
    for _ in 0..3 {
        w.tick(&vec![]);
        assert_eq!(w.entities.len(), 3);
    }
    w.tick(&vec![]);
    assert!(w.entities.is_empty());
}

#[test]
fn hierarchy_check_finds_missing_pieces() {
    let (w, id) = world_with_player();
    assert!(w.hierarchy_holds(1));
    assert!(!w.hierarchy_holds(0));
    // A gun whose holder is not a player.
    let mut stray = with_gun_held_by_arm(&w, id);
    assert!(!stray.hierarchy_holds(1));
    stray.entities.truncate(2);
    assert!(!stray.hierarchy_holds(1));
}

#[test]
fn run_stops_at_the_first_broken_row() {
    let (mut w, _) = world_with_player();
    let rows = vec![vec![input(0, 0, false, false)], vec![input(0, 0, false, false)], vec![]];
    assert_eq!(w.run(&rows), Err(2));
    assert_eq!(w.now, 2);
}

#[test]
fn ground_probes_reach_one_pixel_below_the_collider() {
    let (w, id) = world_with_player();
    assert_eq!(
        w.ground_probes(),
        vec![GroundProbe { entity: id, origin: Vector { x: 480_000, y: 256_000 }, length: 17_000 }]
    );
}
