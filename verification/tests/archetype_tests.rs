use stage_sim::archetypes::Archetypes;
use stage_sim::attack::{AttackType, ShipType};
use stage_sim::color::{color_ammo, color_boost, color_hp, color_neutral, color_skill_point};
use stage_sim::commands::{Command, WorldCommandBuffer};
use stage_sim::components::{
    AutoremoveTimerFrames, CollectibleType, Collider, Components, Drawable, EnemyChargeParticle, MeshType,
    Motion, Transform, COLLISION_LAYER_COLLECTIBLES, COLLISION_LAYER_ENEMY, COLLISION_LAYER_ENEMY_PROJECTILE,
    COLLISION_LAYER_PLAYER, COLLISION_LAYER_PLAYER_PROJECTILE, DEPTH_COLLECTIBLES, DEPTH_EFFECTS, DEPTH_PLAYER,
    DEPTH_PROJECTILE, DEPTH_SCREENFLASH,
};
use stage_sim::easing::EasingType;
use stage_sim::enemy::StageCtx;
use stage_sim::fixed::UNIT;
use stage_sim::frame::{run_early_passes, run_late_passes, spawn_labels};
use stage_sim::infotext::{FontMetrics, InfoText};
use stage_sim::player::Keys;
use stage_sim::random::Entropy;
use stage_sim::shooting::{exhaust_step, fire_step, model_point_exec, tick_step};
use stage_sim::skill::Skill;
use stage_sim::store::Row;
use stage_sim::timer::{TimerSimple, TriggerRepeating};
use stage_sim::vec2::Vec2;

fn words(seed: u64, count: usize) -> Vec<u64> {
    let mut state = seed;
    let mut out = Vec::with_capacity(count);
    for _ in 0..count {
        state = state.wrapping_mul(6364136223846793005).wrapping_add(1442695040888963407);
        out.push(state >> 11);
    }
    out
}

fn still() -> Option<Motion> {
    Some(Motion { vel: Vec2::zero(), acc: Vec2::zero(), dir_angle_vel: 0, dir_angle_acc: 0 })
}

#[test]
fn player_record() {
    let pos = Vec2::new(240 * UNIT, 135 * UNIT);
    let c = Archetypes::new_player(pos, ShipType::Rogue, &vec![Skill::AddHp(15)]);
    assert_eq!(c.transform, Some(Transform { pos, dir_angle: -90_000_000 }));
    assert_eq!(c.motion, still());
    assert_eq!(c.collider, Some(Collider { radius: 12 * UNIT, layers_own: COLLISION_LAYER_PLAYER, layers_affects: COLLISION_LAYER_COLLECTIBLES, collisions: vec![] }));
    let d = c.drawable.unwrap();
    assert_eq!(d.scale, Vec2::filled(3 * UNIT));
    assert_eq!((d.depth, d.color, d.add_jitter, d.visible), (DEPTH_PLAYER, color_neutral(), true, true));
    assert!(matches!(d.mesh, MeshType::Linestrips(ref lines) if lines.len() == 3));
    assert_eq!(c.player.unwrap().hp_max, 115 * UNIT);
    assert!(c.enemy.is_none() && c.drawable_multi.is_none() && c.infotext.is_none());
}

#[test]
fn effect_records() {
    let flash = Archetypes::new_screenflash(480 * UNIT, 270 * UNIT, 3);
    assert_eq!(flash.autoremove_frames, Some(AutoremoveTimerFrames { framecount_start: 3, framecount_left: 3 }));
    assert_eq!(flash.drawable.as_ref().unwrap().depth, DEPTH_SCREENFLASH);
    let muzzle = Archetypes::new_muzzleflash(9, Vec2::new(15 * UNIT, 0), 45_000_000);
    let snap = muzzle.snap.unwrap();
    assert_eq!((snap.parent, snap.pos_snap, snap.dir_angle_snap, snap.remove_entity_if_lost_parent), (9, true, true, true));
    assert_eq!((snap.pos_offset, snap.dir_angle_offset), (Vec2::new(15 * UNIT, 0), 45_000_000));
    assert_eq!(muzzle.autoremove.unwrap().timer, TimerSimple::new_started(100_000));
    let tween = muzzle.tween_scale.unwrap();
    assert_eq!((tween.scale_start, tween.scale_end, tween.easing_type), (8 * UNIT, 0, EasingType::CubicInOut));
    let dot = Archetypes::new_trailparticle(Vec2::new(1, 2), 3 * UNIT, 200_000, color_boost());
    assert_eq!(dot.drawable.as_ref().unwrap().scale, Vec2::filled(3 * UNIT));
    assert_eq!(dot.tween_scale.unwrap().easing_type, EasingType::Linear);
    let hit = Archetypes::new_hit_effect(Vec2::new(1, 2), 3, 4, 5, color_neutral(), 100_000, color_hp(), 150_000, false);
    assert_eq!(hit.autoremove.unwrap().timer.time_end, 250_000);
    let colors = hit.tween_color.unwrap();
    assert_eq!((colors.color_start, colors.color_end, colors.easing_type), (color_neutral(), color_hp(), EasingType::StepEnd));
    assert_eq!(colors.timer_tween.time_end, 100_000);
    assert_eq!(hit.drawable.as_ref().unwrap().mesh, MeshType::RectangleTransformed { width: 3, height: 4, filled: false, centered: true });
    let round = Archetypes::new_hit_effect_round(Vec2::new(1, 2), 7, color_hp(), 200_000, color_neutral(), 350_000, false);
    assert_eq!(round.drawable.as_ref().unwrap().mesh, MeshType::Circle { radius: 7, filled: false });
    assert_eq!(round.drawable.as_ref().unwrap().color, color_hp());
    let streak = Archetypes::new_explode_particle(Vec2::new(1, 2), 90_000_000, 10 * UNIT, UNIT, 5 * UNIT, 400_000, color_ammo());
    assert_eq!(streak.motion.unwrap().vel, Vec2::new(0, -10 * UNIT));
    assert_eq!(streak.explode.unwrap().timer_tween, TimerSimple::new_started(400_000));
    assert_eq!(streak.drawable.as_ref().unwrap().depth, DEPTH_EFFECTS);
    let tick = Archetypes::new_tick_effect(4);
    assert_eq!((tick.tick.unwrap().width, tick.tick.unwrap().height), (32 * UNIT, 48 * UNIT));
    assert!(!tick.snap.unwrap().dir_angle_snap);
    assert_eq!(tick.autoremove.unwrap().timer.time_end, 130_000);
}

#[test]
fn projectile_records() {
    let shot = Archetypes::new_projectile(Vec2::new(5, 6), 0, 200 * UNIT, 4 * UNIT, color_ammo(), 100 * UNIT);
    assert_eq!(shot.motion.unwrap().vel, Vec2::new(200 * UNIT, 0));
    let c = shot.collider.as_ref().unwrap();
    assert_eq!((c.radius, c.layers_own), (4 * UNIT, COLLISION_LAYER_PLAYER_PROJECTILE));
    assert_eq!(c.layers_affects, COLLISION_LAYER_ENEMY | COLLISION_LAYER_ENEMY_PROJECTILE);
    let parts = &shot.drawable_multi.as_ref().unwrap().drawables;
    assert_eq!(parts.len(), 2);
    assert_eq!(parts[0].mesh, MeshType::LineWithThickness { length: 4 * UNIT, thickness: 1_600_000, smooth_edges: false, centered: false });
    assert_eq!((parts[0].color, parts[1].color), (color_ammo(), color_neutral()));
    assert_eq!((parts[1].dir_angle_offset, parts[1].depth), (-180_000_000, DEPTH_PROJECTILE));
    let hostile = Archetypes::new_enemy_projectile(Vec2::new(5, 6), 180_000_000, 90 * UNIT, 4 * UNIT, 10 * UNIT);
    assert_eq!(hostile.motion.unwrap().vel, Vec2::new(-90 * UNIT, 0));
    let c = hostile.collider.as_ref().unwrap();
    assert_eq!(c.layers_own, COLLISION_LAYER_ENEMY_PROJECTILE);
    assert_eq!(c.layers_affects, COLLISION_LAYER_PLAYER | COLLISION_LAYER_PLAYER_PROJECTILE);
    assert_eq!(hostile.projectile.unwrap().color, color_hp());
    let parts = &hostile.drawable_multi.as_ref().unwrap().drawables;
    assert_eq!(parts.len(), 1);
    assert_eq!(parts[0].mesh, MeshType::LineWithThickness { length: 8 * UNIT, thickness: 1_600_000, smooth_edges: false, centered: true });
}

#[test]
fn collectible_records() {
    let pos = Vec2::new(5, 6);
    let vel = Vec2::new(7, 0);
    let ammo = Archetypes::new_ammo_collectible(pos, vel, 10, 20, 3);
    assert_eq!(ammo.transform, Some(Transform { pos, dir_angle: 10 }));
    assert_eq!(ammo.motion.unwrap().dir_angle_vel, 20);
    assert_eq!(ammo.follow.unwrap().follow_precision_percent, 100_000);
    assert_eq!(ammo.collectible.unwrap().size, 8 * UNIT);
    assert_eq!(ammo.collectible.unwrap().color, color_ammo());
    let points = Archetypes::new_skillpoints_collectible(pos, vel, 10, 20);
    assert_eq!(points.collectible.unwrap().collectible, CollectibleType::Skillpoint);
    assert_eq!(points.collectible.unwrap().color, color_skill_point());
    let parts = &points.drawable_multi.as_ref().unwrap().drawables;
    assert_eq!(parts[1].mesh, MeshType::RectangleTransformed { width: 3 * UNIT, height: 3 * UNIT, filled: true, centered: true });
    let boost = Archetypes::new_boost_collectible(pos, vel, 10, 20);
    assert_eq!(boost.collectible.unwrap().collectible, CollectibleType::Boost);
    assert_eq!(boost.collider.as_ref().unwrap().radius, 12 * UNIT);
    let health = Archetypes::new_hp_collectible(pos, vel);
    assert_eq!(health.collectible.unwrap().collectible, CollectibleType::Hp);
    assert_eq!(health.drawable_multi.as_ref().unwrap().drawables.len(), 3);
    assert_eq!(health.drawable_multi.as_ref().unwrap().drawables[2].depth, DEPTH_COLLECTIBLES);
    let attack = Archetypes::new_attack_collectible(pos, vel, AttackType::Back);
    assert_eq!(attack.collectible.unwrap().collectible, CollectibleType::Attack(AttackType::Back));
    assert_eq!(attack.collectible.unwrap().color, color_skill_point());
    assert_eq!(attack.transform.unwrap().dir_angle, 45_000_000);
    let parts = &attack.drawable_multi.as_ref().unwrap().drawables;
    assert!(matches!(&parts[2].mesh, MeshType::Text { text, font_name, .. } if text == "Ba" && font_name == "gui_font"));
    for c in [&ammo, &points, &boost, &health, &attack] {
        let collider = c.collider.as_ref().unwrap();
        assert_eq!((collider.layers_own, collider.layers_affects), (COLLISION_LAYER_COLLECTIBLES, 0));
        assert!(collider.collisions.is_empty());
    }
}

#[test]
fn enemy_records() {
    let mut entropy = Entropy::new(words(4, 256));
    let rock = Archetypes::new_enemy_rock(&mut entropy, Vec2::new(1, 2), Vec2::new(30 * UNIT, 0), 8 * UNIT);
    let enemy = rock.enemy.unwrap();
    assert_eq!((enemy.hp, enemy.hp_max, enemy.score, enemy.can_shoot, enemy.radius), (100 * UNIT, 100 * UNIT, 100, false, 8 * UNIT));
    assert!(!enemy.timer_shoot.is_running());
    assert!((0..=360_000_000).contains(&rock.transform.unwrap().dir_angle));
    assert!((-360_000_000..=360_000_000).contains(&rock.motion.unwrap().dir_angle_vel));
    let c = rock.collider.as_ref().unwrap();
    assert_eq!((c.radius, c.layers_own, c.layers_affects), (8 * UNIT, COLLISION_LAYER_ENEMY, COLLISION_LAYER_PLAYER));
    match &rock.drawable.as_ref().unwrap().mesh {
        MeshType::Linestrip(points) => {
            assert_eq!(points.len(), 9);
            assert_eq!(points[8], points[0]);
            for point in points {
                let reach = point.magnitude();
                assert!(7_400_000 <= reach && reach <= 12_600_000, "{}", reach);
            }
        }
        other => panic!("{:?}", other),
    }
    let polygon = Archetypes::create_irregular_polygon(&mut entropy, 4, 100 * UNIT);
    assert_eq!(polygon.len(), 5);
    assert_eq!(polygon[4], polygon[0]);
    assert!(polygon[0].x > 70 * UNIT && polygon[1].y > 70 * UNIT && polygon[2].x < -70 * UNIT && polygon[3].y < -70 * UNIT);
    let shooter = Archetypes::new_enemy_shooter(Vec2::new(1, 2), Vec2::new(-30 * UNIT, 0));
    assert_eq!(shooter.transform.unwrap().dir_angle, -180_000_000);
    let enemy = shooter.enemy.unwrap();
    assert_eq!((enemy.score, enemy.can_shoot, enemy.radius), (150, true, 12 * UNIT));
    assert_eq!(enemy.timer_shoot, TimerSimple::new_started(5 * UNIT));
    assert_eq!(enemy.timer_charge, TriggerRepeating::new_with_distinct_triggertimes(4 * UNIT, 20_000));
    assert_eq!(Archetypes::new_enemy_shooter(Vec2::zero(), Vec2::zero()).transform.unwrap().dir_angle, 0);
    assert_eq!(
        shooter.drawable.as_ref().unwrap().mesh,
        MeshType::Linestrip(vec![
            Vec2::new(12 * UNIT, 0),
            Vec2::new(-6 * UNIT, 6 * UNIT),
            Vec2::new(-12 * UNIT, 0),
            Vec2::new(-6 * UNIT, -6 * UNIT),
            Vec2::new(12 * UNIT, 0),
        ])
    );
    let spark = EnemyChargeParticle::new(Vec2::new(1, 1), Vec2::new(2, 2), 3, 4, 5, Vec2::new(6, 6));
    assert_eq!(spark.timer, TimerSimple::new_started(5));
    let plain = Drawable::plain(MeshType::Circle { radius: 1, filled: true }, color_hp(), 3);
    assert_eq!((plain.scale, plain.pos_offset, plain.visible, plain.add_jitter), (Vec2::ones(), Vec2::zero(), true, false));
}

#[test]
fn ship_fires_leaves_exhaust_and_ticks() {
    let mut entropy = Entropy::new(words(20, 256));
    let mut commands = WorldCommandBuffer::new();
    let record = Archetypes::new_player(Vec2::new(100 * UNIT, 100 * UNIT), ShipType::Fighter, &Vec::new());
    let mut ship = record.player.unwrap();
    ship.attack = AttackType::Triple.attack();
    ship.reload_timer = TriggerRepeating::new(320_000);
    ship.ammo = 2 * UNIT;
    fire_step(7, &mut ship, Vec2::new(100 * UNIT, 100 * UNIT), 0, 100_000, &mut entropy, &mut commands);
    assert!(commands.commands.is_empty());
    assert_eq!(ship.reload_timer.time_cur, 100_000);
    fire_step(7, &mut ship, Vec2::new(100 * UNIT, 100 * UNIT), 0, 220_000, &mut entropy, &mut commands);
    assert_eq!(commands.commands.len(), 4);
    match &commands.commands[0] {
        Command::Spawn(flash) => {
            assert_eq!(flash.snap.unwrap().parent, 7);
            assert_eq!(flash.snap.unwrap().pos_offset, Vec2::new(12 * UNIT, 0));
        }
        other => panic!("{:?}", other),
    }
    // The last ammunition is spent: the pool refills and the pattern falls back.
    assert_eq!(ship.ammo, 100 * UNIT);
    assert_eq!(ship.attack.typename, AttackType::Neutral);
    assert_eq!(ship.reload_timer, TriggerRepeating::new(240_000));
    commands.commands.clear();
    exhaust_step(&mut ship, Vec2::new(100 * UNIT, 100 * UNIT), 0, 10_000, true, &mut entropy, &mut commands);
    assert_eq!(commands.commands.len(), 2);
    match &commands.commands[1] {
        Command::Spawn(dot) => {
            assert_eq!(dot.transform.unwrap().pos, Vec2::new(91 * UNIT, 103 * UNIT));
            assert_eq!(dot.drawable.as_ref().unwrap().color, color_boost());
        }
        other => panic!("{:?}", other),
    }
    commands.commands.clear();
    tick_step(7, &mut ship, 4_999_999, &mut commands);
    assert!(commands.commands.is_empty());
    tick_step(7, &mut ship, 1, &mut commands);
    assert_eq!(commands.commands.len(), 1);
    assert_eq!(ship.cycle_timer, TimerSimple::new_started(5 * UNIT));
    assert_eq!(model_point_exec((-3, 2)), Vec2::new(-3 * UNIT, 2 * UNIT));
}

#[test]
fn new_labels_are_queued_clear_of_each_other() {
    let font = FontMetrics { glyph_width: 6 * UNIT, glyph_height: 8 * UNIT };
    let at = Vec2::new(50 * UNIT, 50 * UNIT);
    let labels = vec![
        InfoText::new(at, "+HP", color_hp()),
        InfoText::new(at, "+BOOST", color_boost()),
        InfoText::new(at, "+AMMO", color_ammo()),
    ];
    let mut commands = WorldCommandBuffer::new();
    spawn_labels(labels, &Vec::new(), &font, &mut commands);
    let placed: Vec<Vec2> = commands
        .commands
        .iter()
        .map(|command| match command {
            Command::Spawn(c) => c.infotext.as_ref().unwrap().pos,
            other => panic!("{:?}", other),
        })
        .collect();
    assert_eq!(placed, vec![at, Vec2::new(50 * UNIT, 42 * UNIT), Vec2::new(50 * UNIT, 58 * UNIT)]);
}

#[test]
fn passes_run_in_their_order() {
    // A shot that the motion of this very frame carries into a rock hits it in this frame.
    let mut entropy = Entropy::new(words(40, 1024));
    let rock = Archetypes::new_enemy_rock(&mut entropy, Vec2::new(100 * UNIT, 50 * UNIT), Vec2::zero(), 8 * UNIT);
    let shot = Archetypes::new_projectile(Vec2::new(50 * UNIT, 50 * UNIT), 0, 200 * UNIT, 4 * UNIT, color_neutral(), 30 * UNIT);
    let mut rows = vec![Row { id: 1, c: rock }, Row { id: 2, c: shot }, Row { id: 3, c: Components::none() }];
    let mut commands = WorldCommandBuffer::new();
    let ctx = StageCtx { deltatime: 250_000, canvas_width: 480 * UNIT, canvas_height: 270 * UNIT, player: 9 };
    let keys = Keys { up: false, down: false, left: false, right: false };
    let font = FontMetrics { glyph_width: 6 * UNIT, glyph_height: 8 * UNIT };
    run_early_passes(&mut rows, &mut commands, &ctx);
    assert!(commands.commands.is_empty());
    assert_eq!(rows[0].c.collider.as_ref().unwrap().collisions, vec![2]);
    assert_eq!(rows[0].c.enemy.unwrap().hp, 100 * UNIT);
    let outcome = run_late_passes(&mut rows, &mut commands, &keys, &ctx, &font, &mut entropy);
    assert_eq!(outcome.kills, 0);
    assert_eq!(outcome.player.response, None);
    assert_eq!(rows[1].c.transform.unwrap().pos, Vec2::new(100 * UNIT, 50 * UNIT));
    assert_eq!(rows[0].c.collider.as_ref().unwrap().collisions, vec![2]);
    assert_eq!(rows[0].c.enemy.unwrap().hp, 70 * UNIT);
    assert!(rows[0].c.enemy.unwrap().hitflash_timer.is_running());
    assert_eq!(commands.commands[0], Command::Despawn(2));
    assert_eq!(commands.commands.len(), 2);
    assert_eq!(rows[2].c, Components::none());
}
