use stage_sim::archetypes::Archetypes;
use stage_sim::color::color_neutral;
use stage_sim::components::{MeshType, Transform};
use stage_sim::fixed::UNIT;
use stage_sim::infotext::FontMetrics;
use stage_sim::player::Keys;
use stage_sim::random::Entropy;
use stage_sim::scene::{FrameInput, SceneStage, SlowmotionModulator};
use stage_sim::vec2::Vec2;

const WIDTH: i64 = 480 * UNIT;
const HEIGHT: i64 = 270 * UNIT;
const FRAME: i64 = 16_667;

fn stock(seed: u64, count: usize) -> Vec<u64> {
    let mut state = seed;
    let mut out = Vec::with_capacity(count);
    for _ in 0..count {
        state = state.wrapping_mul(6364136223846793005).wrapping_add(1442695040888963407);
        out.push(state >> 11);
    }
    out
}

fn frame_input(deltatime: i64) -> FrameInput {
    FrameInput {
        deltatime,
        canvas_width: WIDTH,
        canvas_height: HEIGHT,
        keys: Keys { up: false, down: false, left: false, right: false },
        spawn_ammo: false,
        any_key_pressed: false,
        font: FontMetrics { glyph_width: 6 * UNIT, glyph_height: 8 * UNIT },
    }
}

fn stage(seed: u64) -> (SceneStage, Entropy) {
    let mut entropy = Entropy::new(stock(seed, 8192));
    let scene = SceneStage::new(&mut entropy, WIDTH, HEIGHT);
    (scene, entropy)
}

#[test]
fn frames_keep_the_hit_points_of_enemies_within_bounds() {
    let (mut scene, mut entropy) = stage(41);
    let at = Vec2::new(100 * UNIT, 50 * UNIT);
    scene.store.spawn(Archetypes::new_enemy_rock(&mut entropy, at, Vec2::new(5 * UNIT, 0), 8 * UNIT));
    scene.store.spawn(Archetypes::new_enemy_shooter(Vec2::new(300 * UNIT, 200 * UNIT), Vec2::new(-5 * UNIT, 0)));
    // Shots of 30 and of 250 points of damage on the rock.
    scene.store.spawn(Archetypes::new_projectile(at, 0, 0, 4 * UNIT, color_neutral(), 30 * UNIT));
    for frame in 0..400usize {
        if frame == 20 {
            let rock = scene.store.snapshot().into_iter().find(|row| row.c.enemy.is_some()).unwrap();
            let here = rock.c.transform.unwrap().pos;
            scene.store.spawn(Archetypes::new_projectile(here, 0, 0, 4 * UNIT, color_neutral(), 250 * UNIT));
        }
        scene.update_and_draw(&frame_input(FRAME), &mut entropy);
        for row in scene.store.snapshot() {
            if let Some(enemy) = row.c.enemy {
                assert!(0 <= enemy.hp && enemy.hp <= enemy.hp_max, "frame {}", frame);
            }
        }
    }
}

#[test]
fn ship_outside_is_gone_even_while_it_touches_something() {
    let (mut scene, mut entropy) = stage(42);
    let player = scene.player;
    let outside = Vec2::new(-50 * UNIT, 135 * UNIT);
    let mut record = scene.store.get(player).unwrap();
    record.transform = Some(Transform { pos: outside, dir_angle: -90_000_000 });
    let mut ship = record.player.unwrap();
    ship.invincible_timer.restart();
    record.player = Some(ship);
    assert!(scene.store.set(player, record));
    let pickup = scene.store.spawn(Archetypes::new_hp_collectible(outside, Vec2::zero()));
    let rock = scene.store.spawn(Archetypes::new_enemy_rock(&mut entropy, outside, Vec2::zero(), 8 * UNIT));
    let before: Vec<u64> = scene.store.ids();
    scene.update_and_draw(&frame_input(0), &mut entropy);
    assert!(!scene.store.contains(player));
    assert!(!scene.store.contains(pickup));
    assert!(scene.store.contains(rock));
    assert_eq!(scene.slowmotion, {
        let mut slow = SlowmotionModulator::new();
        slow.add_slowmotion(UNIT, 150_000);
        slow
    });
    let flashes: Vec<_> = scene
        .store
        .snapshot()
        .into_iter()
        .filter(|row| matches!(row.c.autoremove_frames, Some(t) if t.framecount_left == 4))
        .collect();
    assert_eq!(flashes.len(), 1);
    assert!(!before.contains(&flashes[0].id));
    assert_eq!(
        flashes[0].c.drawable.as_ref().unwrap().mesh,
        MeshType::Rectangle { width: WIDTH, height: HEIGHT, filled: true, centered: false }
    );
}

#[test]
fn healing_at_full_health_changes_nothing() {
    let (mut scene, mut entropy) = stage(43);
    let player = scene.player;
    let full = scene.store.get(player).unwrap().player.unwrap();
    assert_eq!(full.hp, full.hp_max);
    let center = Vec2::new(240 * UNIT, 135 * UNIT);
    let first = scene.store.spawn(Archetypes::new_hp_collectible(center, Vec2::zero()));
    let second = scene.store.spawn(Archetypes::new_hp_collectible(center, Vec2::zero()));
    let ammo = scene.store.spawn(Archetypes::new_ammo_collectible(center, Vec2::zero(), 0, 0, player));
    scene.update_and_draw(&frame_input(0), &mut entropy);
    for id in [first, second, ammo] {
        assert!(!scene.store.contains(id));
    }
    let ship = scene.store.get(player).unwrap().player.unwrap();
    assert_eq!(ship.hp, ship.hp_max);
    assert_eq!(ship.ammo, ship.ammo_max);
}
