use rusted_chrome::blood::Blood;
use rusted_chrome::camera::{follow_targets, setup_camera, CameraTarget};
use rusted_chrome::debug::DebugState;
use rusted_chrome::fps::{toggle_framepace_plugin, FpsSettings, FramepaceKeys, Limiter};
use rusted_chrome::platforms::{add_tiled_colliders, PlatformCollider, TileInfo};
use rusted_chrome::player::Bullet;
use rusted_chrome::store::{Entity, World};
use rusted_chrome::units::{Transform, Vector};
use rusted_chrome::world::GameWorld;

fn world() -> GameWorld {
    GameWorld::default()
}

#[test]
fn camera_moves_toward_target_center() {
    // Viewport 1280 x 800 logical pixels at zoom 2: half view 320 x 200 pixels.
    let viewport = Vector { x: 1_280_000, y: 800_000 };
    let targets = vec![Vector { x: 400_000, y: 300_000 }, Vector { x: 600_000, y: 300_000 }];
    let cam = Vector { x: 340_000, y: 290_000 };
    // Gap 160 px on x: 1.5 per second for 0.1 s moves 24 px; y is within the slack.
    let r = follow_targets(cam, &targets, viewport, 2, 100_000, &world());
    assert_eq!(r, Vector { x: 364_000, y: 290_000 });
    assert_eq!(CameraTarget::with_radius(5).radius, 5);
}

#[test]
fn camera_starts_at_the_far_corner() {
    assert_eq!(setup_camera(&world()), Vector { x: 960_000, y: 540_000 });
}

#[test]
fn camera_inside_the_slack_needs_no_room() {
    // The view is wider than this world, but the camera has no reason to move.
    let small = GameWorld { width: 100_000, height: 100_000 };
    let viewport = Vector { x: 1_280_000, y: 800_000 };
    let cam = Vector { x: 10_000, y: -20_000 };
    let targets = vec![Vector { x: 30_000, y: 0 }];
    assert_eq!(follow_targets(cam, &targets, viewport, 2, 100_000, &small), cam);
}

#[test]
fn camera_stays_inside_the_world() {
    let viewport = Vector { x: 1_280_000, y: 800_000 };
    let targets = vec![Vector { x: -900_000, y: 0 }];
    let cam = Vector { x: 330_000, y: 200_000 };
    let r = follow_targets(cam, &targets, viewport, 2, 1_000_000, &world());
    assert_eq!(r.x, 320_000);
    assert_eq!(r.y, 200_000);
}

#[test]
fn camera_without_targets_heads_for_the_origin() {
    let viewport = Vector { x: 1_280_000, y: 800_000 };
    let cam = Vector { x: 600_000, y: 300_000 };
    let r = follow_targets(cam, &vec![], viewport, 2, 100_000, &world());
    assert_eq!(r, Vector { x: 510_000, y: 255_000 });
}

#[test]
fn camera_targets_are_listed_in_order() {
    let mut w = World::new(world());
    let a = w.spawn_player(0);
    let b = w.spawn_player(1);
    assert_eq!(w.camera_targets().len(), 2);
    assert_eq!(w.camera_targets()[0], w.get(a).unwrap().transform.translation);
    assert_eq!(w.camera_targets()[1], w.get(b).unwrap().transform.translation);
}

#[test]
fn platform_tiles_get_colliders() {
    let tiles = vec![
        Some(TileInfo { x: 0, y: 0, texture: 1 }),
        Some(TileInfo { x: 1, y: 2, texture: 2 }),
        None,
        Some(TileInfo { x: 3, y: 0, texture: 3 }),
        Some(TileInfo { x: 4, y: 4, texture: 4 }),
    ];
    let r = add_tiled_colliders(&tiles, 16_000, 16_000);
    let half = Vector { x: 9_000, y: 1_000 };
    assert_eq!(
        r,
        vec![
            PlatformCollider { offset: Vector { x: 24_000, y: 40_000 }, half_extents: half },
            PlatformCollider { offset: Vector { x: 56_000, y: 8_000 }, half_extents: half },
        ]
    );
}

#[test]
fn framepace_keys() {
    let mut l = Limiter::Auto;
    let mut s = FpsSettings::default();
    let toggle = FramepaceKeys { toggle: true, faster: false, slower: false };
    toggle_framepace_plugin(&mut l, &mut s, toggle);
    assert_eq!(l, Limiter::Off);
    toggle_framepace_plugin(&mut l, &mut s, toggle);
    assert_eq!(l, Limiter::Manual(60));
    toggle_framepace_plugin(&mut l, &mut s, toggle);
    assert_eq!(l, Limiter::Auto);
    toggle_framepace_plugin(&mut l, &mut s, FramepaceKeys { toggle: false, faster: true, slower: false });
    assert_eq!((l, s.fps), (Limiter::Manual(61), 61));
    let mut one = FpsSettings { fps: 1 };
    toggle_framepace_plugin(&mut l, &mut one, FramepaceKeys { toggle: false, faster: false, slower: true });
    assert_eq!((l, one.fps), (Limiter::Manual(1), 1));
}

#[test]
fn debug_overlays_toggle() {
    let mut d = DebugState::set_defaults();
    assert!(!d.physics_overlay && !d.diagnostics);
    d.toggle_rapier_debug(true);
    assert!(d.physics_overlay);
    d.toggle_fps(false, true);
    assert!(!d.diagnostics);
    d.toggle_fps(true, true);
    assert!(d.diagnostics);
    d.toggle_fps(true, true);
    assert!(!d.diagnostics);
    d.toggle_rapier_debug(false);
    assert!(d.physics_overlay);
}

#[test]
fn bullet_hitting_player_bursts_into_blood() {
    let mut w = World::new(world());
    let p = w.spawn_player(0);
    let mut bullet = Entity::new(w.next_id, None, 0, Transform::from_xy(11, 12));
    bullet.bullet = Some(Bullet);
    let bid = bullet.id;
    w.entities.push(bullet);
    w.next_id += 1;
    let spray = vec![Vector { x: 1, y: 2 }, Vector { x: 3, y: 4 }];
    assert!(w.spawn_blood_on_hit(p, bid, &spray));
    assert!(w.get(bid).is_none());
    let drops: Vec<Entity> = w.entities.iter().filter(|e| e.blood == Some(Blood)).cloned().collect();
    assert_eq!(drops.len(), 2);
    assert_eq!(drops[0].velocity, Some(Vector { x: 1, y: 2 }));
    assert_eq!(drops[1].transform.translation, Vector { x: 11, y: 12 });
    assert_eq!(drops[1].lifetime.unwrap().timer.remaining, 180);
    assert_eq!(w.next_id, bid + 3);
}

#[test]
fn other_contacts_spill_nothing() {
    let mut w = World::new(world());
    let p = w.spawn_player(0);
    let before = w.entities.clone();
    assert!(!w.spawn_blood_on_hit(p, p + 1, &vec![Vector { x: 1, y: 2 }]));
    assert_eq!(w.entities, before);
}
