use stage_sim::archetypes::Archetypes;
use stage_sim::attack::{AttackType, ShipType};
use stage_sim::color::{color_ammo, color_hp, color_neutral};
use stage_sim::commands::Command;
use stage_sim::components::{CollectibleType, Components, MeshType, Transform};
use stage_sim::fixed::UNIT;
use stage_sim::infotext::FontMetrics;
use stage_sim::launcher::{GameState, HostInput, SceneConsole, SceneKind, SceneSkilltree};
use stage_sim::player::Keys;
use stage_sim::random::Entropy;
use stage_sim::scene::{create_spawn_pos_vel, FrameInput, SceneStage, SlowmotionModulator};
use stage_sim::vec2::Vec2;

const WIDTH: i64 = 480 * UNIT;
const HEIGHT: i64 = 270 * UNIT;
const FRAME: i64 = 16_667;

fn words(seed: u64, count: usize) -> Vec<u64> {
    let mut state = seed;
    let mut out = Vec::with_capacity(count);
    for _ in 0..count {
        state = state.wrapping_mul(6364136223846793005).wrapping_add(1442695040888963407);
        out.push(state >> 11);
    }
    out
}

fn no_keys() -> Keys {
    Keys { up: false, down: false, left: false, right: false }
}

fn input(deltatime: i64) -> FrameInput {
    FrameInput {
        deltatime,
        canvas_width: WIDTH,
        canvas_height: HEIGHT,
        keys: no_keys(),
        spawn_ammo: false,
        any_key_pressed: false,
        font: FontMetrics { glyph_width: 6 * UNIT, glyph_height: 8 * UNIT },
    }
}

fn fresh(seed: u64) -> (SceneStage, Entropy) {
    let mut entropy = Entropy::new(words(seed, 8192));
    let scene = SceneStage::new(&mut entropy, WIDTH, HEIGHT);
    (scene, entropy)
}

#[test]
fn new_stage_holds_the_player_in_the_middle() {
    let (scene, _) = fresh(1);
    assert_eq!(scene.score, 0);
    assert_eq!(scene.skillpoint_count, 0);
    assert_eq!(scene.store.ids(), vec![scene.player]);
    assert!(scene.is_player_alive());
    let record = scene.store.get(scene.player).unwrap();
    assert_eq!(record.transform, Some(Transform { pos: Vec2::new(240 * UNIT, 135 * UNIT), dir_angle: -90_000_000 }));
    let player = record.player.unwrap();
    assert_eq!(player.hp_max, 115 * UNIT);
    assert_eq!(player.boost_max, 150 * UNIT);
    assert_eq!(player.ship_type, ShipType::Sorcerer);
    let hud = scene.hud();
    assert_eq!((hud.hp, hud.hp_max, hud.boost, hud.ammo), (115 * UNIT, 115 * UNIT, 150 * UNIT, 100 * UNIT));
    assert_eq!((hud.difficulty, hud.round_over, hud.round_ratio, hud.cycle_ratio), (1, false, 0, 0));
}

#[test]
fn player_that_leaves_the_canvas_is_gone_next_frame() {
    let (mut scene, mut entropy) = fresh(2);
    let player = scene.player;
    let mut record = scene.store.get(player).unwrap();
    record.transform = Some(Transform { pos: Vec2::new(-50 * UNIT, 135 * UNIT), dir_angle: -90_000_000 });
    assert!(scene.store.set(player, record));
    let output = scene.update_and_draw(&input(FRAME), &mut entropy);
    assert!(!output.restart);
    let shake = output.shake.unwrap();
    assert_eq!((shake.amplitude, shake.duration, shake.frequency), (6 * UNIT, 200_000, 80 * UNIT));
    // The frame still shows the ship, with nothing left.
    let shown = output.frame.iter().find(|row| row.id == player).unwrap();
    assert_eq!(shown.c.player.unwrap().hp, 0);
    // The store no longer holds it.
    assert!(!scene.store.contains(player));
    assert!(!scene.is_player_alive());
    assert!(scene.store.snapshot().iter().all(|row| row.c.player.is_none()));
    // A slow motion is under way and a flash covers the canvas.
    assert_eq!(scene.slowmotion, {
        let mut slow = SlowmotionModulator::new();
        slow.add_slowmotion(UNIT, 150_000);
        slow
    });
    let rows = scene.store.snapshot();
    let flashes: Vec<_> = rows.iter().filter(|row| row.c.autoremove_frames.is_some()).collect();
    assert_eq!(flashes.len(), 1);
    assert_eq!(flashes[0].c.autoremove_frames.unwrap().framecount_left, 4);
    assert_eq!(
        flashes[0].c.drawable.as_ref().unwrap().mesh,
        MeshType::Rectangle { width: WIDTH, height: HEIGHT, filled: true, centered: false }
    );
    let debris = rows.iter().filter(|row| row.c.explode.is_some()).count();
    assert!((16..32).contains(&debris), "{}", debris);
    assert!(scene.hud().round_over);
    // The next frame runs slowly, and a key asks for a new round.
    let mut pressed = input(FRAME);
    pressed.any_key_pressed = true;
    let next = scene.update_and_draw(&pressed, &mut entropy);
    assert!(next.restart);
    assert!(next.shake.is_none());
    assert!(!scene.store.contains(player));
}

#[test]
fn collectible_on_the_player_is_picked_up() {
    let (mut scene, mut entropy) = fresh(3);
    let player = scene.player;
    let mut record = scene.store.get(player).unwrap();
    let mut ship = record.player.unwrap();
    ship.hp = 50 * UNIT;
    record.player = Some(ship);
    scene.store.set(player, record);
    let pickup = scene.store.spawn(Archetypes::new_hp_collectible(Vec2::new(245 * UNIT, 135 * UNIT), Vec2::zero()));
    let output = scene.update_and_draw(&input(FRAME), &mut entropy);
    assert!(!scene.store.contains(pickup));
    assert!(scene.store.contains(player));
    assert_eq!(scene.store.get(player).unwrap().player.unwrap().hp, 75 * UNIT);
    assert_eq!(scene.score, 100);
    assert!(output.shake.is_none());
    // The frame shows both with each other in their lists.
    let ship_row = output.frame.iter().find(|row| row.id == player).unwrap();
    assert_eq!(ship_row.c.collider.as_ref().unwrap().collisions, vec![pickup]);
    let pickup_row = output.frame.iter().find(|row| row.id == pickup).unwrap();
    assert_eq!(pickup_row.c.collider.as_ref().unwrap().collisions, vec![player]);
    // A label and the celebration were spawned.
    let rows = scene.store.snapshot();
    let labels: Vec<_> = rows.iter().filter_map(|row| row.c.infotext.clone()).collect();
    assert_eq!(labels.len(), 1);
    assert_eq!(labels[0].text, vec!['+', 'H', 'P']);
    assert_eq!(labels[0].color, color_hp());
    assert_eq!(rows.iter().filter(|row| row.c.blinker.is_some()).count(), 3);
}

#[test]
fn pickup_gain_is_clamped_to_the_maximum() {
    let (mut scene, mut entropy) = fresh(4);
    let player = scene.player;
    let mut record = scene.store.get(player).unwrap();
    let mut ship = record.player.unwrap();
    ship.hp = 110 * UNIT;
    ship.boost = 5 * UNIT;
    record.player = Some(ship);
    scene.store.set(player, record);
    let center = Vec2::new(240 * UNIT, 135 * UNIT);
    let health = scene.store.spawn(Archetypes::new_hp_collectible(center, Vec2::zero()));
    let boost = scene.store.spawn(Archetypes::new_boost_collectible(center, Vec2::zero(), 0, 0));
    let points = scene.store.spawn(Archetypes::new_skillpoints_collectible(center, Vec2::zero(), 0, 0));
    let attack = scene.store.spawn(Archetypes::new_attack_collectible(center, Vec2::zero(), AttackType::Double));
    scene.update_and_draw(&input(0), &mut entropy);
    for id in [health, boost, points, attack] {
        assert!(!scene.store.contains(id));
    }
    let ship = scene.store.get(player).unwrap().player.unwrap();
    assert_eq!(ship.hp, 115 * UNIT);
    assert_eq!(ship.boost, 30 * UNIT);
    assert_eq!(ship.attack.typename, AttackType::Double);
    assert_eq!(ship.ammo, 100 * UNIT);
    assert_eq!(scene.skillpoint_count, 1);
    assert_eq!(scene.score, 100 + 150 + 250 + 500);
}

#[test]
fn double_pattern_spawns_two_projectiles() {
    let (mut scene, mut entropy) = fresh(5);
    let player = scene.player;
    let mut record = scene.store.get(player).unwrap();
    let mut ship = record.player.unwrap();
    ship.attack = AttackType::Double.attack();
    ship.reload_timer = stage_sim::timer::TriggerRepeating::new(ship.attack.reload_time);
    record.player = Some(ship);
    scene.store.set(player, record);
    // One frame as long as the reload time fires once.
    scene.update_and_draw(&input(320_000), &mut entropy);
    let rows = scene.store.snapshot();
    let shots: Vec<_> = rows.iter().filter(|row| row.c.projectile.is_some()).collect();
    assert_eq!(shots.len(), 2);
    let mut angles: Vec<i64> = shots.iter().map(|row| row.c.transform.unwrap().dir_angle).collect();
    angles.sort();
    assert_eq!(angles, vec![-105_000_000, -75_000_000]);
    for shot in shots {
        let projectile = shot.c.projectile.unwrap();
        assert_eq!(projectile.color, color_ammo());
        assert_eq!(projectile.damage, 100 * UNIT);
        assert_eq!(projectile.length, 4 * UNIT);
        assert_eq!(shot.c.transform.unwrap().pos, Vec2::new(240 * UNIT, 150 * UNIT));
        assert_eq!(shot.c.collider.as_ref().unwrap().layers_own, 8);
    }
    assert_eq!(scene.store.get(player).unwrap().player.unwrap().ammo, 98 * UNIT);
    assert_eq!(rows.iter().filter(|row| row.c.snap.is_some() && row.c.tween_scale.is_some()).count(), 1);
}

#[test]
fn shot_kills_a_rock_and_it_drops_ammunition() {
    let (mut scene, mut entropy) = fresh(6);
    let at = Vec2::new(100 * UNIT, 50 * UNIT);
    let rock = scene.store.spawn(Archetypes::new_enemy_rock(&mut entropy, at, Vec2::new(30 * UNIT, 0), 8 * UNIT));
    let shot =
        scene.store.spawn(Archetypes::new_projectile(at, 0, 0, 4 * UNIT, color_neutral(), 100 * UNIT));
    scene.update_and_draw(&input(0), &mut entropy);
    assert!(!scene.store.contains(rock));
    assert!(!scene.store.contains(shot));
    assert_eq!(scene.score, 100);
    let rows = scene.store.snapshot();
    let drops: Vec<_> = rows
        .iter()
        .filter(|row| matches!(row.c.collectible, Some(c) if c.collectible == CollectibleType::Ammo))
        .collect();
    assert_eq!(drops.len(), 1);
    assert_eq!(drops[0].c.follow.unwrap().target, scene.player);
    // One burst for the rock and one for the shot.
    assert_eq!(rows.iter().filter(|row| row.c.tween_color.is_some()).count(), 2);
}

#[test]
fn frames_keep_the_pools_within_bounds() {
    let (mut scene, mut entropy) = fresh(7);
    let keys = [
        Keys { up: true, left: true, down: false, right: false },
        Keys { up: false, left: false, down: true, right: true },
        no_keys(),
    ];
    for frame in 0..600usize {
        let mut this = input(FRAME + (frame as i64 % 7) * 1000);
        this.keys = keys[(frame / 50) % 3];
        this.spawn_ammo = frame % 40 == 0;
        let output = scene.update_and_draw(&this, &mut entropy);
        for row in output.frame.iter() {
            if let Some(p) = row.c.player {
                assert!(0 <= p.hp && p.hp <= p.hp_max);
                assert!(0 <= p.ammo && p.ammo <= p.ammo_max);
                assert!(0 <= p.boost && p.boost <= p.boost_max);
            }
            if let Some(t) = row.c.transform {
                assert!(-360_000_000 < t.dir_angle && t.dir_angle <= 360_000_000);
            }
        }
        assert!(scene.commands.commands.is_empty());
        let ships: Vec<u64> = scene.store.snapshot().iter().filter(|row| row.c.player.is_some()).map(|row| row.id).collect();
        assert!(ships.is_empty() || ships == vec![scene.player]);
        if !scene.is_player_alive() {
            break;
        }
    }
    assert!(scene.store.ids().len() > 1);
}

#[test]
fn spawned_entities_join_the_frame_after_the_motion_pass() {
    let (mut scene, mut entropy) = fresh(8);
    let mut held = input(0);
    held.spawn_ammo = true;
    let output = scene.update_and_draw(&held, &mut entropy);
    // The ammunition shows in the very frame that spawned it.
    assert_eq!(output.frame.len(), 2);
    let row = output.frame.iter().find(|row| row.c.collectible.is_some()).unwrap();
    assert_eq!(row.c.collectible.unwrap().collectible, CollectibleType::Ammo);
    assert!(row.c.collider.as_ref().unwrap().collisions.is_empty());
    let pos = row.c.transform.unwrap().pos;
    assert!(0 <= pos.x && pos.x <= WIDTH && 0 <= pos.y && pos.y <= HEIGHT);
    // One more frame moves it and steers it toward the ship.
    let next = scene.update_and_draw(&input(UNIT), &mut entropy);
    let moved = next.frame.iter().find(|other| other.id == row.id);
    if let Some(moved) = moved {
        assert_eq!(moved.c.transform.unwrap().pos, pos.plus(row.c.motion.unwrap().vel));
    }
}

#[test]
fn lanes_lead_into_the_canvas() {
    let mut entropy = Entropy::new(words(9, 512));
    let (mut left, mut right) = (0, 0);
    for _ in 0..100 {
        let (pos, vel) = create_spawn_pos_vel(&mut entropy, WIDTH, HEIGHT);
        assert_eq!(vel.y, 0);
        assert!(10 * UNIT <= pos.y && pos.y <= 260 * UNIT);
        if vel.x > 0 {
            left += 1;
            assert_eq!(pos.x, -10 * UNIT);
            assert!(20 * UNIT <= vel.x && vel.x <= 40 * UNIT);
        } else {
            right += 1;
            assert_eq!(pos.x, 490 * UNIT);
            assert!(-40 * UNIT <= vel.x && vel.x <= -20 * UNIT);
        }
    }
    assert!(left > 10 && right > 10);
}

#[test]
fn ammunition_key_spawns_ammunition() {
    let (mut scene, mut entropy) = fresh(10);
    let mut held = input(FRAME);
    held.spawn_ammo = true;
    let report = scene.spawn_phase(&held, FRAME, &mut entropy);
    assert_eq!(report.decided, (None, None, None));
    let id = report.ammo.unwrap();
    let record = scene.store.get(id).unwrap();
    assert_eq!(record.collectible.unwrap().collectible, CollectibleType::Ammo);
    assert_eq!(record.follow.unwrap().target, scene.player);
    assert_eq!(scene.store.ids().len(), 2);
}

#[test]
fn slow_motion_runs_up_to_the_normal_pace() {
    let mut slow = SlowmotionModulator::new();
    assert_eq!(slow.update_and_get_new_deltatime(100_000), 100_000);
    slow.add_slowmotion(UNIT, 200_000);
    assert_eq!(slow.update_and_get_new_deltatime(0), 0);
    assert_eq!(slow.update_and_get_new_deltatime(500_000), 300_000);
    assert_eq!(slow.update_and_get_new_deltatime(500_000), 500_000);
    assert_eq!(slow.update_and_get_new_deltatime(100_000), 100_000);
    // A new slow motion replaces the one under way.
    slow.add_slowmotion(2 * UNIT, 500_000);
    slow.update_and_get_new_deltatime(UNIT);
    slow.add_slowmotion(UNIT, 100_000);
    assert_eq!(slow.factor, 100_000);
    assert_eq!(slow.timer.time_cur, 0);
    assert_eq!(slow.timer.time_end, UNIT);
}

fn host(target: i64) -> HostInput {
    HostInput {
        target_deltatime: target,
        reload: false,
        speed_up: false,
        slow_down: false,
        toggle_pause: false,
        step: false,
        keys: no_keys(),
        spawn_ammo: false,
        any_key_pressed: false,
        font: FontMetrics { glyph_width: 6 * UNIT, glyph_height: 8 * UNIT },
    }
}

#[test]
fn game_clock_pauses_steps_and_changes_speed() {
    let mut entropy = Entropy::new(words(12, 8192));
    let mut game = GameState::new(&mut entropy);
    assert_eq!(game.scene_current, SceneKind::Stage);
    assert!(game.update(&host(FRAME), &mut entropy).is_some());
    assert_eq!(game.deltatime, FRAME);
    game.update(&HostInput { speed_up: true, ..host(FRAME) }, &mut entropy);
    assert_eq!(game.debug_deltatime_factor, 1_100_000);
    assert_eq!(game.deltatime, 18_333);
    for _ in 0..20 {
        game.update(&HostInput { slow_down: true, ..host(FRAME) }, &mut entropy);
    }
    assert_eq!(game.debug_deltatime_factor, 100_000);
    assert_eq!(game.deltatime, 1_666);
    game.update(&HostInput { toggle_pause: true, ..host(FRAME) }, &mut entropy);
    assert!(game.is_paused);
    assert_eq!(game.deltatime, 0);
    game.update(&HostInput { step: true, ..host(FRAME) }, &mut entropy);
    assert_eq!(game.deltatime, 1_666);
    game.update(&HostInput { toggle_pause: true, ..host(FRAME) }, &mut entropy);
    assert!(!game.is_paused);
    game.update(&HostInput { reload: true, ..host(FRAME) }, &mut entropy);
    assert_eq!(game.debug_deltatime_factor, UNIT);
    assert_eq!(game.deltatime, FRAME);
    assert_eq!(game.scene_stage.score, 0);
}

#[test]
fn stage_starts_over_when_the_round_is_lost_and_a_key_is_pressed() {
    let mut entropy = Entropy::new(words(13, 8192));
    let mut game = GameState::new(&mut entropy);
    let player = game.scene_stage.player;
    game.scene_stage.store.despawn(player);
    game.scene_stage.score = 900;
    let quiet = game.update(&host(FRAME), &mut entropy).unwrap();
    assert!(!quiet.restart);
    assert_eq!(game.scene_stage.score, 900);
    assert!(!game.scene_stage.is_player_alive());
    let pressed = game.update(&HostInput { any_key_pressed: true, ..host(FRAME) }, &mut entropy).unwrap();
    assert!(pressed.restart);
    assert_eq!(game.scene_stage.score, 0);
    assert!(game.scene_stage.is_player_alive());
    assert_eq!(game.scene_current, SceneKind::Stage);
}

#[test]
fn idle_scenes_do_nothing() {
    let mut console = SceneConsole::_new();
    console.update_and_draw();
    assert_eq!(console, SceneConsole {});
    let mut tree = SceneSkilltree::new();
    tree.update_and_draw();
    assert_eq!(tree, SceneSkilltree {});
    let mut entropy = Entropy::new(words(14, 8192));
    let mut game = GameState::new(&mut entropy);
    game.scene_current = SceneKind::Console;
    assert!(game.update(&host(FRAME), &mut entropy).is_none());
    game.scene_current = SceneKind::Skilltree;
    assert!(game.update(&host(FRAME), &mut entropy).is_none());
}

#[test]
fn queue_is_empty_between_frames_and_holds_only_what_was_queued() {
    let (mut scene, mut entropy) = fresh(15);
    scene.commands.add_entity(Components::none());
    assert_eq!(scene.commands.commands, vec![Command::Spawn(Components::none())]);
    scene.update_and_draw(&input(0), &mut entropy);
    assert!(scene.commands.commands.is_empty());
    assert_eq!(scene.store.ids().len(), 2);
}
