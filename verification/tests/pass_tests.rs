use stage_sim::archetypes::Archetypes;
use stage_sim::census::take_census;
use stage_sim::color::{color_ammo, color_boost, color_hp, color_neutral, color_skill_point, color_transparent, Color};
use stage_sim::commands::{Command, WorldCommandBuffer};
use stage_sim::components::{
    AutoremoveTimer, AutoremoveTimerFrames, BlendMode, Blinker, CollectibleType, Components, Drawable,
    EnemyChargeParticle, MeshType, Motion, MoveTowardsTarget, SnapToParent, Transform, TweenColor, TweenScale,
    DEPTH_EFFECTS,
};
use stage_sim::easing::EasingType;
use stage_sim::effects::{blinker_pass, charge_pass, explode_pass, projectile_pass, tick_pass, tween_pass};
use stage_sim::enemy::{aim, enemy_pass, take_hits, StageCtx};
use stage_sim::fixed::UNIT;
use stage_sim::infotext::{
    get_closest_position_without_overlapping, is_clear, measure_label, overlap, FontMetrics, InfoText,
};
use stage_sim::labels::{collectible_pass, infotext_pass, place_label, showing_label_rects};
use stage_sim::motion::{autoremove_pass, integrate, motion_pass, snap_pass, steer, steering_pass};
use stage_sim::random::Entropy;
use stage_sim::render::{draw_drawable, draw_frame, draw_spark, linestrip_transform, rect_outline, DrawCall, Paint};
use stage_sim::store::Row;
use stage_sim::vec2::{Rect, Vec2};

fn words(seed: u64, count: usize) -> Vec<u64> {
    let mut state = seed;
    let mut out = Vec::with_capacity(count);
    for _ in 0..count {
        state = state.wrapping_mul(6364136223846793005).wrapping_add(1442695040888963407);
        out.push(state >> 11);
    }
    out
}

fn ctx(deltatime: i64) -> StageCtx {
    StageCtx { deltatime, canvas_width: 480 * UNIT, canvas_height: 270 * UNIT, player: 1 }
}

fn at(x: i64, y: i64) -> Option<Transform> {
    Some(Transform { pos: Vec2::new(x * UNIT, y * UNIT), dir_angle: 0 })
}

fn moving(vx: i64, vy: i64, spin: i64) -> Option<Motion> {
    Some(Motion { vel: Vec2::new(vx * UNIT, vy * UNIT), acc: Vec2::zero(), dir_angle_vel: spin, dir_angle_acc: 0 })
}

#[test]
fn lifetimes_run_out() {
    let mut timed = Components::none();
    timed.autoremove = Some(AutoremoveTimer::new(100_000));
    let mut counted = Components::none();
    counted.autoremove_frames = Some(AutoremoveTimerFrames::new(1));
    let mut both = Components::none();
    both.autoremove = Some(AutoremoveTimer::new(0));
    both.autoremove_frames = Some(AutoremoveTimerFrames::new(0));
    let mut rows = vec![
        Row { id: 1, c: timed },
        Row { id: 2, c: counted },
        Row { id: 3, c: both },
        Row { id: 4, c: Components::none() },
    ];
    let mut commands = WorldCommandBuffer::new();
    autoremove_pass(&mut rows, &mut commands, 60_000);
    assert_eq!(commands.commands, vec![Command::Despawn(3), Command::Despawn(3)]);
    assert_eq!(rows[0].c.autoremove.unwrap().timer.time_cur, 60_000);
    assert_eq!(rows[1].c.autoremove_frames.unwrap().framecount_left, 0);
    autoremove_pass(&mut rows, &mut commands, 60_000);
    assert_eq!(
        commands.commands,
        vec![
            Command::Despawn(3),
            Command::Despawn(3),
            Command::Despawn(1),
            Command::Despawn(2),
            Command::Despawn(3),
            Command::Despawn(3),
        ]
    );
    assert_eq!(rows[3].c, Components::none());
}

#[test]
fn motion_integrates_and_wraps_the_facing() {
    let t = Transform { pos: Vec2::new(10 * UNIT, 20 * UNIT), dir_angle: 350_000_000 };
    let m = moving(60, -30, 120_000_000).unwrap();
    let next = integrate(t, &m, 500_000);
    assert_eq!(next.pos, Vec2::new(40 * UNIT, 5 * UNIT));
    assert_eq!(next.dir_angle, 50_000_000);
    let back = integrate(Transform { pos: Vec2::zero(), dir_angle: -350_000_000 }, &moving(0, 0, -20_000_000).unwrap(), UNIT);
    assert_eq!(back.dir_angle, -10_000_000);
    let mut with = Components::none();
    with.transform = Some(t);
    with.motion = Some(m);
    let mut still = Components::none();
    still.transform = Some(t);
    let mut rows = vec![Row { id: 1, c: with }, Row { id: 2, c: still.clone() }];
    motion_pass(&mut rows, 500_000);
    assert_eq!(rows[0].c.transform, Some(next));
    assert_eq!(rows[1].c, still);
}

fn follower(parent: u64, pos: bool, angle: bool, remove: bool) -> Components {
    let mut c = Components::none();
    c.transform = Some(Transform { pos: Vec2::new(1, 1), dir_angle: 5 });
    c.snap = Some(SnapToParent {
        parent,
        remove_entity_if_lost_parent: remove,
        pos_snap: pos,
        pos_offset: Vec2::new(10 * UNIT, 0),
        dir_angle_snap: angle,
        dir_angle_offset: 45_000_000,
    });
    c
}

#[test]
fn followers_snap_to_their_parent_or_go_with_it() {
    let mut parent = Components::none();
    parent.transform = Some(Transform { pos: Vec2::new(100 * UNIT, 100 * UNIT), dir_angle: 90_000_000 });
    let mut rows = vec![
        Row { id: 1, c: parent },
        Row { id: 2, c: follower(1, true, true, true) },
        Row { id: 3, c: follower(1, true, false, true) },
        Row { id: 4, c: follower(1, false, true, true) },
        Row { id: 5, c: follower(1, false, false, true) },
        Row { id: 6, c: follower(99, true, true, true) },
        Row { id: 7, c: follower(99, true, true, false) },
    ];
    let facts = take_census(&rows);
    let mut commands = WorldCommandBuffer::new();
    snap_pass(&mut rows, &facts, &mut commands);
    assert_eq!(rows[1].c.transform, Some(Transform { pos: Vec2::new(100 * UNIT, 90 * UNIT), dir_angle: 135_000_000 }));
    assert_eq!(rows[2].c.transform, Some(Transform { pos: Vec2::new(110 * UNIT, 100 * UNIT), dir_angle: 5 }));
    assert_eq!(rows[3].c.transform, Some(Transform { pos: Vec2::new(1, 1), dir_angle: 135_000_000 }));
    assert_eq!(rows[4].c.transform, Some(Transform { pos: Vec2::new(1, 1), dir_angle: 5 }));
    assert_eq!(rows[5].c.transform, Some(Transform { pos: Vec2::new(1, 1), dir_angle: 5 }));
    assert_eq!(rows[6].c.transform, Some(Transform { pos: Vec2::new(1, 1), dir_angle: 5 }));
    assert_eq!(commands.commands, vec![Command::Despawn(6)]);
}

#[test]
fn steering_bends_toward_the_target_and_keeps_the_speed() {
    let vel = steer(Vec2::new(10 * UNIT, 0), Vec2::zero(), Vec2::new(0, 50 * UNIT), 100_000);
    assert!(vel.y > 0 && vel.x > 0);
    assert!((vel.magnitude() - 10 * UNIT).abs() < 100, "{}", vel.magnitude());
    assert_eq!(steer(Vec2::new(10 * UNIT, 0), Vec2::zero(), Vec2::new(50 * UNIT, 0), 100_000), Vec2::new(10 * UNIT, 0));
    assert_eq!(steer(Vec2::new(10 * UNIT, 0), Vec2::zero(), Vec2::new(0, 50 * UNIT), UNIT), Vec2::new(0, 10 * UNIT));
    let mut target = Components::none();
    target.transform = at(0, 50);
    let mut chaser = Components::none();
    chaser.transform = at(0, 0);
    chaser.motion = moving(10, 0, 0);
    chaser.follow = Some(MoveTowardsTarget { target: 1, follow_precision_percent: UNIT });
    let mut lost = chaser.clone();
    lost.follow = Some(MoveTowardsTarget { target: 42, follow_precision_percent: UNIT });
    let mut rows = vec![Row { id: 1, c: target }, Row { id: 2, c: chaser }, Row { id: 3, c: lost.clone() }];
    let facts = take_census(&rows);
    steering_pass(&mut rows, &facts);
    assert_eq!(rows[1].c.motion.unwrap().vel, Vec2::new(0, 10 * UNIT));
    assert_eq!(rows[2].c, lost);
}

#[test]
fn shots_wear_an_enemy_down() {
    let mut shot = Archetypes::new_projectile(Vec2::zero(), 0, 0, 4 * UNIT, color_neutral(), 40 * UNIT);
    shot.transform = at(0, 0);
    let rows = vec![Row { id: 5, c: shot.clone() }, Row { id: 6, c: shot }, Row { id: 7, c: Components::none() }];
    let facts = take_census(&rows);
    assert_eq!(take_hits(100 * UNIT, 100 * UNIT, &vec![5, 7, 9], &facts), (60 * UNIT, true));
    assert_eq!(take_hits(100 * UNIT, 100 * UNIT, &vec![5, 6, 5], &facts), (0, true));
    assert_eq!(take_hits(100 * UNIT, 100 * UNIT, &vec![7, 9], &facts), (100 * UNIT, false));
    assert_eq!(take_hits(100 * UNIT, 100 * UNIT, &Vec::new(), &facts), (100 * UNIT, false));
}

#[test]
fn shooter_fires_at_the_player_when_its_countdown_ends() {
    let mut player = Components::none();
    player.transform = at(200, 100);
    let shooter = Archetypes::new_enemy_shooter(Vec2::new(100 * UNIT, 100 * UNIT), Vec2::new(-30 * UNIT, 0));
    let mut rows = vec![Row { id: 1, c: player }, Row { id: 2, c: shooter }];
    let facts = take_census(&rows);
    let mut entropy = Entropy::new(words(5, 256));
    let mut commands = WorldCommandBuffer::new();
    assert_eq!(enemy_pass(&mut rows, &facts, &ctx(3_900_000), &mut entropy, &mut commands), 0);
    assert!(commands.commands.is_empty());
    assert_eq!(rows[1].c.enemy.unwrap().timer_shoot.time_cur, 3_900_000);
    // The charge trigger comes due at four seconds and sparks.
    enemy_pass(&mut rows, &facts, &ctx(100_000), &mut entropy, &mut commands);
    assert_eq!(commands.commands.len(), 1);
    match &commands.commands[0] {
        Command::Spawn(c) => {
            let spark = c.charge.unwrap();
            assert_eq!(spark.muzzle_entity, 2);
            assert_eq!(spark.muzzle_pos, Vec2::new(88 * UNIT, 100 * UNIT));
            assert!((2 * UNIT..=3 * UNIT).contains(&spark.size));
        }
        other => panic!("{:?}", other),
    }
    // At five seconds it fires.
    commands.commands.clear();
    enemy_pass(&mut rows, &facts, &ctx(UNIT), &mut entropy, &mut commands);
    let shots: Vec<&Components> = commands
        .commands
        .iter()
        .filter_map(|command| match command {
            Command::Spawn(c) if c.projectile.is_some() => Some(c),
            _ => None,
        })
        .collect();
    assert_eq!(shots.len(), 1);
    assert_eq!(shots[0].transform.unwrap().pos, Vec2::new(88 * UNIT, 100 * UNIT));
    assert_eq!(shots[0].transform.unwrap().dir_angle, 0);
    assert_eq!(shots[0].projectile.unwrap().damage, 10 * UNIT);
    assert_eq!(shots[0].projectile.unwrap().color, color_hp());
    let speed = shots[0].motion.unwrap().vel.x;
    assert!((80 * UNIT..=100 * UNIT).contains(&speed));
    let enemy = rows[1].c.enemy.unwrap();
    assert!((4 * UNIT..=6 * UNIT).contains(&enemy.timer_shoot.time_end));
    assert_eq!(enemy.timer_shoot.time_cur, 0);
    assert_eq!(enemy.timer_charge.time_interval, enemy.timer_shoot.time_end - UNIT);
    assert_eq!(enemy.timer_charge.time_repeat, 20_000);
    assert_eq!(aim(Vec2::zero(), Vec2::new(0, -5 * UNIT)), 90_000_000);
}

#[test]
fn enemy_flashes_when_hit_and_leaves_at_the_edge() {
    let mut shot = Archetypes::new_projectile(Vec2::zero(), 0, 0, 4 * UNIT, color_neutral(), 40 * UNIT);
    shot.transform = at(0, 0);
    let mut rock = Archetypes::new_enemy_shooter(Vec2::new(497 * UNIT, 100 * UNIT), Vec2::new(30 * UNIT, 0));
    rock.collider.as_mut().unwrap().collisions.push(9);
    let mut rows = vec![Row { id: 2, c: rock }, Row { id: 9, c: shot }];
    let facts = take_census(&rows);
    let mut entropy = Entropy::new(words(6, 256));
    let mut commands = WorldCommandBuffer::new();
    assert_eq!(enemy_pass(&mut rows, &facts, &ctx(10_000), &mut entropy, &mut commands), 0);
    let enemy = rows[0].c.enemy.unwrap();
    assert_eq!(enemy.hp, 60 * UNIT);
    assert!(enemy.hitflash_timer.is_running());
    assert_eq!(rows[0].c.drawable.as_ref().unwrap().color, color_hp());
    assert!(commands.commands.is_empty());
    enemy_pass(&mut rows, &facts, &ctx(10_000), &mut entropy, &mut commands);
    assert_eq!(rows[0].c.drawable.as_ref().unwrap().color, color_neutral());
    assert_eq!(rows[0].c.enemy.unwrap().hp, 20 * UNIT);
    rows[0].c.transform = at(504, 100);
    rows[0].c.collider.as_mut().unwrap().collisions.clear();
    enemy_pass(&mut rows, &facts, &ctx(10_000), &mut entropy, &mut commands);
    assert_eq!(commands.commands, vec![Command::Despawn(2)]);
}

#[test]
fn particles_fade_and_the_stamp_flattens() {
    let mut rows = vec![
        Row {
            id: 1,
            c: Archetypes::new_explode_particle(Vec2::zero(), 0, 100 * UNIT, 2 * UNIT, 10 * UNIT, UNIT, color_hp()),
        },
        Row { id: 2, c: Archetypes::new_tick_effect(7) },
    ];
    explode_pass(&mut rows, 250_000);
    assert_eq!(rows[0].c.motion.unwrap().vel, Vec2::new(75 * UNIT, 0));
    assert_eq!(
        rows[0].c.drawable.as_ref().unwrap().mesh,
        MeshType::LineWithThickness { length: 7_500_000, thickness: 2 * UNIT, smooth_edges: false, centered: false }
    );
    explode_pass(&mut rows, UNIT);
    assert_eq!(rows[0].c.motion.unwrap().vel, Vec2::zero());
    tick_pass(&mut rows, 65_000);
    let stamp = rows[1].c.drawable.as_ref().unwrap();
    assert_eq!(stamp.mesh, MeshType::Rectangle { width: 32 * UNIT, height: 24 * UNIT, filled: true, centered: true });
    assert_eq!(stamp.pos_offset, Vec2::new(0, -12 * UNIT));
    tick_pass(&mut rows, 65_000);
    let flat = rows[1].c.drawable.as_ref().unwrap();
    assert_eq!(flat.mesh, MeshType::Rectangle { width: 32 * UNIT, height: 0, filled: true, centered: true });
    assert_eq!(flat.pos_offset, Vec2::new(0, -24 * UNIT));
}

#[test]
fn tweens_and_blinkers_drive_the_drawable() {
    let mut c = Archetypes::new_hit_effect(Vec2::zero(), UNIT, UNIT, 0, color_neutral(), 100_000, color_hp(), 150_000, true);
    c.tween_scale = Some(TweenScale::new(2 * UNIT, 4 * UNIT, 200_000, EasingType::Linear));
    c.blinker = Some(Blinker::new(true, 200_000, 50_000));
    let mut rows = vec![Row { id: 1, c }];
    tween_pass(&mut rows, 50_000);
    blinker_pass(&mut rows, 50_000);
    let d = rows[0].c.drawable.as_ref().unwrap();
    assert_eq!(d.color, color_neutral());
    assert_eq!(d.scale, Vec2::filled(2_500_000));
    assert!(d.visible);
    tween_pass(&mut rows, 50_000);
    assert_eq!(rows[0].c.drawable.as_ref().unwrap().color, color_hp());
    tween_pass(&mut rows, 100_000);
    blinker_pass(&mut rows, 150_000);
    let d = rows[0].c.drawable.as_ref().unwrap();
    assert_eq!(d.scale, Vec2::filled(4 * UNIT));
    assert!(!d.visible);
    let mut tween = TweenColor::new(Color { r: 0, g: 0, b: 0, a: 0 }, Color { r: 200, g: 100, b: 50, a: 255 }, UNIT, EasingType::Linear);
    let mut drawable = Drawable::plain(MeshType::Circle { radius: UNIT, filled: true }, color_neutral(), 0);
    tween.update(&mut drawable, 500_000);
    assert_eq!(drawable.color, Color { r: 100, g: 50, b: 25, a: 127 });
}

#[test]
fn projectiles_end_on_a_hit_or_outside() {
    let flying = Archetypes::new_projectile(Vec2::new(10 * UNIT, 10 * UNIT), 0, 0, 4 * UNIT, color_neutral(), UNIT);
    let mut hit = flying.clone();
    hit.collider.as_mut().unwrap().collisions.push(3);
    let mut outside = flying.clone();
    outside.transform = at(500, -20);
    let rows = vec![Row { id: 1, c: flying }, Row { id: 2, c: hit }, Row { id: 3, c: outside }];
    let mut commands = WorldCommandBuffer::new();
    projectile_pass(&rows, &ctx(0), &mut commands);
    assert_eq!(commands.commands.len(), 4);
    assert_eq!(commands.commands[0], Command::Despawn(2));
    assert_eq!(commands.commands[2], Command::Despawn(3));
    match &commands.commands[3] {
        Command::Spawn(burst) => {
            assert_eq!(burst.transform.unwrap().pos, Vec2::new(480 * UNIT, 0));
            assert_eq!(burst.autoremove.unwrap().timer.time_end, 250_000);
            assert_eq!(
                burst.drawable.as_ref().unwrap().mesh,
                MeshType::RectangleTransformed { width: 7 * UNIT, height: 7 * UNIT, filled: true, centered: true }
            );
        }
        other => panic!("{:?}", other),
    }
}

#[test]
fn sparks_follow_the_muzzle_and_expire() {
    let mut enemy = Components::none();
    enemy.transform = at(50, 50);
    let mut spark = Components::none();
    spark.charge = Some(EnemyChargeParticle::new(
        Vec2::zero(),
        Vec2::new(-8 * UNIT, 0),
        1,
        2 * UNIT,
        200_000,
        Vec2::new(20 * UNIT, 20 * UNIT),
    ));
    let mut orphan = spark.clone();
    orphan.charge.as_mut().unwrap().muzzle_entity = 77;
    let mut rows = vec![Row { id: 1, c: enemy }, Row { id: 2, c: spark }, Row { id: 3, c: orphan }];
    let facts = take_census(&rows);
    let mut commands = WorldCommandBuffer::new();
    charge_pass(&mut rows, &facts, 100_000, &mut commands);
    assert!(commands.commands.is_empty());
    let followed = rows[1].c.charge.unwrap();
    assert_eq!(followed.muzzle_pos, Vec2::new(42 * UNIT, 50 * UNIT));
    assert_eq!(rows[2].c.charge.unwrap().muzzle_pos, Vec2::zero());
    assert_eq!(
        draw_spark(&followed),
        DrawCall::RectTransformed {
            dim: Vec2::filled(UNIT),
            pivot: Vec2::filled(500_000),
            pos: Vec2::new(31 * UNIT, 35 * UNIT),
            scale: Vec2::ones(),
            dir: Vec2::from_angle_flipped_y(45_000_000),
            paint: Paint { depth: DEPTH_EFFECTS, color: color_hp(), additivity: BlendMode::Normal },
        }
    );
    charge_pass(&mut rows, &facts, 100_000, &mut commands);
    assert_eq!(commands.commands, vec![Command::Despawn(2), Command::Despawn(3)]);
    charge_pass(&mut rows, &facts, 100_000, &mut commands);
    assert_eq!(commands.commands.len(), 2);
}

fn spawned(commands: &WorldCommandBuffer) -> Vec<&Components> {
    commands
        .commands
        .iter()
        .filter_map(|command| match command {
            Command::Spawn(c) => Some(c),
            _ => None,
        })
        .collect()
}

#[test]
fn collectibles_are_celebrated_or_fade() {
    let mut picked = Archetypes::new_boost_collectible(Vec2::new(50 * UNIT, 50 * UNIT), Vec2::new(30 * UNIT, 0), 0, 0);
    picked.collider.as_mut().unwrap().collisions.push(1);
    let lost = Archetypes::new_hp_collectible(Vec2::new(480 * UNIT, 50 * UNIT), Vec2::new(30 * UNIT, 0));
    let coming = Archetypes::new_hp_collectible(Vec2::new(-10 * UNIT, 50 * UNIT), Vec2::new(30 * UNIT, 0));
    let homing = Archetypes::new_ammo_collectible(Vec2::new(-1, 50 * UNIT), Vec2::new(30 * UNIT, 0), 0, 0, 1);
    let mut attack = Archetypes::new_attack_collectible(Vec2::new(9, 9), Vec2::new(-30 * UNIT, 0), stage_sim::attack::AttackType::Side);
    attack.collider.as_mut().unwrap().collisions.push(1);
    let rows = vec![
        Row { id: 2, c: picked },
        Row { id: 3, c: lost },
        Row { id: 4, c: coming },
        Row { id: 5, c: homing },
        Row { id: 6, c: attack },
    ];
    let mut entropy = Entropy::new(words(8, 1024));
    let mut commands = WorldCommandBuffer::new();
    let labels = collectible_pass(&rows, &ctx(0), &mut entropy, &mut commands);
    let despawned: Vec<u64> = commands
        .commands
        .iter()
        .filter_map(|command| match command {
            Command::Despawn(id) => Some(*id),
            _ => None,
        })
        .collect();
    assert_eq!(despawned, vec![2, 3, 5, 6]);
    assert_eq!(labels.len(), 2);
    assert_eq!(labels[0].text.iter().collect::<String>(), "+BOOST");
    assert_eq!(labels[0].color, color_boost());
    assert_eq!(labels[1].text.iter().collect::<String>(), "Side");
    let all = spawned(&commands);
    let sparkles = all.iter().filter(|c| c.explode.is_some()).count();
    assert!((12..=21).contains(&sparkles), "{}", sparkles);
    let blinking: Vec<&&Components> = all.iter().filter(|c| c.blinker.is_some()).collect();
    assert_eq!(blinking.len(), 4);
    assert_eq!(blinking[1].tween_scale.unwrap().scale_end, 30 * UNIT);
    assert_eq!(blinking[3].tween_scale.unwrap().scale_start, 19_600_000);
    let fades = all.iter().filter(|c| c.blinker.is_none() && c.tween_color.is_some()).count();
    assert_eq!(fades, 2);
    for id in [CollectibleType::Boost, CollectibleType::Ammo, CollectibleType::Hp, CollectibleType::Skillpoint] {
        assert!(id.get_infotext_string().starts_with('+'));
    }
}

#[test]
fn labels_scramble_blink_and_expire() {
    let mut label = InfoText::new(Vec2::new(5, 5), "+AMMO", color_ammo());
    assert_eq!(label.text, vec!['+', 'A', 'M', 'M', 'O']);
    assert_eq!(label.text_color_foreground, vec![color_ammo(); 5]);
    assert_eq!(label.text_color_background, vec![color_transparent(); 5]);
    let mut entropy = Entropy::new(words(21, 512));
    assert_eq!(label.update_and_check_if_finished(&mut entropy, 600_000), (false, true));
    assert_eq!(label.text, vec!['+', 'A', 'M', 'M', 'O']);
    let (finished, visible) = label.update_and_check_if_finished(&mut entropy, 100_000);
    assert!(!finished && !visible);
    assert_eq!(label.text.len(), 5);
    let set = " 0123456789!@#$%&*()-=+[]^~/;?><.,|abcdefghijklmnopqrstuvwxyzABCDEFGHIJKLMNOPQRSTUVWYXZ";
    assert!(label.text.iter().zip("+AMMO".chars()).all(|(now, was)| *now == was || set.contains(*now)));
    let mut changed = 0;
    for _ in 0..10 {
        let before = label.text.clone();
        label.update_and_check_if_finished(&mut entropy, 35_000);
        if before != label.text {
            changed += 1;
        }
    }
    assert!(changed > 0);
    assert_eq!(label.update_and_check_if_finished(&mut entropy, 100_000).0, true);
    let mut rows = vec![Row { id: 4, c: Components::none() }, Row { id: 5, c: Components::none() }];
    rows[0].c.infotext = Some(InfoText::new(Vec2::zero(), "+HP", color_hp()));
    let mut commands = WorldCommandBuffer::new();
    infotext_pass(&mut rows, &mut entropy, UNIT, &mut commands);
    assert!(commands.commands.is_empty());
    infotext_pass(&mut rows, &mut entropy, UNIT, &mut commands);
    assert_eq!(commands.commands, vec![Command::Despawn(4)]);
    assert_eq!(rows[1].c, Components::none());
    assert!(InfoText::blank().text.is_empty());
}

#[test]
fn new_labels_keep_clear_of_showing_ones() {
    let font = FontMetrics { glyph_width: 6 * UNIT, glyph_height: 8 * UNIT };
    let showing = InfoText::new(Vec2::new(100 * UNIT, 100 * UNIT), "+BOOST", color_boost());
    let mut hidden = InfoText::new(Vec2::new(100 * UNIT, 92 * UNIT), "+HP", color_hp());
    hidden.blinker.state = false;
    let mut rows = vec![Row { id: 1, c: Components::none() }, Row { id: 2, c: Components::none() }];
    rows[0].c.infotext = Some(showing);
    rows[1].c.infotext = Some(hidden);
    let rects = showing_label_rects(&rows, &font);
    assert_eq!(rects, vec![Rect { pos: Vec2::new(100 * UNIT, 100 * UNIT), dim: Vec2::new(36 * UNIT, 8 * UNIT) }]);
    assert_eq!(measure_label(Vec2::new(1, 2), 3, &font), Rect { pos: Vec2::new(1, 2), dim: Vec2::new(18 * UNIT, 8 * UNIT) });
    let mut fresh = InfoText::new(Vec2::new(110 * UNIT, 103 * UNIT), "+1 SP", color_skill_point());
    place_label(&mut fresh, &rects, &font);
    assert_eq!(fresh.pos, Vec2::new(110 * UNIT, 111 * UNIT));
    let mut apart = InfoText::new(Vec2::new(300 * UNIT, 103 * UNIT), "+1 SP", color_skill_point());
    place_label(&mut apart, &rects, &font);
    assert_eq!(apart.pos, Vec2::new(300 * UNIT, 103 * UNIT));
    let a = Rect { pos: Vec2::zero(), dim: Vec2::filled(10) };
    let b = Rect { pos: Vec2::new(10, 0), dim: Vec2::filled(10) };
    let c = Rect { pos: Vec2::new(9, 9), dim: Vec2::filled(10) };
    assert!(!overlap(&a, &b));
    assert!(overlap(&a, &c) && overlap(&c, &a));
    assert!(is_clear(&a, &vec![b]));
    assert!(!is_clear(&a, &vec![b, c]));
    let crowded = vec![a, Rect { pos: Vec2::new(0, -10), dim: Vec2::filled(10) }];
    assert_eq!(get_closest_position_without_overlapping(a, &crowded), Vec2::new(0, 10));
}

#[test]
fn drawables_become_draw_calls() {
    let mut entropy = Entropy::new(words(30, 256));
    let t = Transform { pos: Vec2::new(100 * UNIT, 50 * UNIT), dir_angle: 0 };
    let paint = Paint { depth: 7, color: color_hp(), additivity: BlendMode::Normal };
    let mut calls: Vec<DrawCall> = Vec::new();
    let mut circle = Drawable::plain(MeshType::Circle { radius: 2 * UNIT, filled: true }, color_hp(), 7);
    circle.scale = Vec2::filled(3 * UNIT);
    draw_drawable(&mut calls, &mut entropy, &t, &circle);
    assert_eq!(calls, vec![DrawCall::Circle { center: t.pos, radius: 6 * UNIT, filled: true, paint }]);
    circle.visible = false;
    draw_drawable(&mut calls, &mut entropy, &t, &circle);
    assert_eq!(calls.len(), 1);
    let rect = Drawable::plain(MeshType::Rectangle { width: 10 * UNIT, height: 4 * UNIT, filled: false, centered: true }, color_hp(), 7);
    draw_drawable(&mut calls, &mut entropy, &t, &rect);
    assert_eq!(
        calls[1],
        DrawCall::Rect {
            rect: Rect { pos: Vec2::new(95 * UNIT, 48 * UNIT), dim: Vec2::new(10 * UNIT, 4 * UNIT) },
            filled: false,
            paint
        }
    );
    let filled = Drawable::plain(MeshType::RectangleTransformed { width: 10 * UNIT, height: 4 * UNIT, filled: true, centered: true }, color_hp(), 7);
    draw_drawable(&mut calls, &mut entropy, &t, &filled);
    assert_eq!(
        calls[2],
        DrawCall::RectTransformed {
            dim: Vec2::new(10 * UNIT, 4 * UNIT),
            pivot: Vec2::new(5 * UNIT, 2 * UNIT),
            pos: t.pos,
            scale: Vec2::ones(),
            dir: Vec2::unit_x(),
            paint
        }
    );
    let frame = Drawable::plain(MeshType::RectangleTransformed { width: 10 * UNIT, height: 4 * UNIT, filled: false, centered: true }, color_hp(), 7);
    draw_drawable(&mut calls, &mut entropy, &t, &frame);
    assert_eq!(
        calls[3],
        DrawCall::Linestrip {
            points: vec![
                Vec2::new(95 * UNIT, 48 * UNIT),
                Vec2::new(105 * UNIT, 48 * UNIT),
                Vec2::new(105 * UNIT, 52 * UNIT),
                Vec2::new(95 * UNIT, 52 * UNIT),
                Vec2::new(95 * UNIT, 48 * UNIT),
            ],
            paint
        }
    );
    let line = Drawable::plain(MeshType::LineWithThickness { length: 8 * UNIT, thickness: UNIT, smooth_edges: false, centered: true }, color_hp(), 7);
    draw_drawable(&mut calls, &mut entropy, &t, &line);
    assert_eq!(
        calls[4],
        DrawCall::Line {
            start: Vec2::new(96 * UNIT, 50 * UNIT),
            end: Vec2::new(104 * UNIT, 50 * UNIT),
            thickness: UNIT,
            smooth_edges: false,
            paint
        }
    );
    let text = Drawable::plain(
        MeshType::Text { text: "2".to_string(), font_name: "gui_font".to_string(), font_scale: UNIT, alignment: None, color_background: None },
        color_hp(),
        7,
    );
    draw_drawable(&mut calls, &mut entropy, &t, &text);
    assert_eq!(
        calls[5],
        DrawCall::Text {
            text: "2".to_string(),
            font_name: "gui_font".to_string(),
            font_scale: UNIT,
            pos: t.pos,
            alignment: None,
            color_background: None,
            paint
        }
    );
    assert_eq!(rect_outline(&Rect { pos: Vec2::new(1, 2), dim: Vec2::new(3, 4) })[2], Vec2::new(4, 6));
}

#[test]
fn ship_outline_jitters_within_a_unit() {
    let mut entropy = Entropy::new(words(31, 1024));
    let player = Archetypes::new_player(Vec2::new(100 * UNIT, 50 * UNIT), stage_sim::attack::ShipType::Fighter, &Vec::new());
    let still = Transform { pos: Vec2::new(100 * UNIT, 50 * UNIT), dir_angle: 0 };
    let mut calls: Vec<DrawCall> = Vec::new();
    draw_drawable(&mut calls, &mut entropy, &still, player.drawable.as_ref().unwrap());
    assert_eq!(calls.len(), 3);
    match &calls[0] {
        DrawCall::Linestrip { points, .. } => {
            assert_eq!(points.len(), 9);
            let nose = points[0];
            assert!(112 * UNIT <= nose.x && nose.x <= 113 * UNIT);
            assert!(50 * UNIT <= nose.y && nose.y <= 51 * UNIT);
        }
        other => panic!("{:?}", other),
    }
    let exact = linestrip_transform(
        &vec![Vec2::new(4 * UNIT, 0)],
        still.pos,
        Vec2::zero(),
        Vec2::filled(3 * UNIT),
        Vec2::unit_x(),
        false,
        &mut entropy,
    );
    assert_eq!(exact, vec![Vec2::new(112 * UNIT, 50 * UNIT)]);
}

#[test]
fn frame_draws_groups_first() {
    let mut entropy = Entropy::new(words(32, 256));
    let shot = Archetypes::new_projectile(Vec2::new(10 * UNIT, 10 * UNIT), 0, 0, 4 * UNIT, color_ammo(), UNIT);
    let dot = Archetypes::new_trailparticle(Vec2::new(5 * UNIT, 5 * UNIT), 2 * UNIT, UNIT, color_boost());
    let mut hidden = dot.clone();
    hidden.drawable.as_mut().unwrap().visible = false;
    let rows = vec![Row { id: 1, c: dot }, Row { id: 2, c: shot }, Row { id: 3, c: hidden }, Row { id: 4, c: Components::none() }];
    let calls = draw_frame(&rows, &mut entropy);
    assert_eq!(calls.len(), 3);
    assert!(matches!(calls[0], DrawCall::Line { .. }));
    assert!(matches!(calls[1], DrawCall::Line { .. }));
    assert_eq!(
        calls[2],
        DrawCall::Circle {
            center: Vec2::new(5 * UNIT, 5 * UNIT),
            radius: 2 * UNIT,
            filled: true,
            paint: Paint { depth: DEPTH_EFFECTS, color: color_boost(), additivity: BlendMode::Normal }
        }
    );
}
