use stage_sim::color::{color_ammo, color_hp, color_transparent, palette};
use stage_sim::commands::{Command, WorldCommandBuffer};
use stage_sim::components::{Drawable, MeshType, Transform};
use stage_sim::director::{Director, EnemyType};
use stage_sim::enemy::StageCtx;
use stage_sim::fixed::UNIT;
use stage_sim::infotext::InfoText;
use stage_sim::pilot::damage_effects;
use stage_sim::player::response_for;
use stage_sim::random::Entropy;
use stage_sim::render::{draw_drawable, linestrip_transform, DrawCall};
use stage_sim::scene::create_spawn_pos_vel;
use stage_sim::vec2::Vec2;

#[test]
fn fixed_enemy_tables_take_no_draw() {
    let mut entropy = Entropy::new(vec![13, 29, 31, 47]);
    for difficulty in 1..=4usize {
        Director::get_enemy_spawn_chance(&mut entropy, difficulty);
        assert_eq!(entropy.cursor, 0);
        assert_eq!(entropy.words, vec![13, 29, 31, 47]);
    }
}

#[test]
fn late_enemy_tables_take_a_draw_for_each_kind() {
    let mut entropy = Entropy::new(vec![13, 29, 31, 47]);
    let weights = Director::get_enemy_spawn_chance(&mut entropy, 5);
    assert_eq!(weights, vec![(EnemyType::Rock, 2 + 13 % 10), (EnemyType::Shooter, 2 + 29 % 10)]);
    assert_eq!(entropy.cursor, 2);
    let weights = Director::get_enemy_spawn_chance(&mut entropy, 77);
    assert_eq!(weights, vec![(EnemyType::Rock, 2 + 31 % 10), (EnemyType::Shooter, 2 + 47 % 10)]);
    assert_eq!(entropy.cursor, 0);
}

#[test]
fn first_round_holds_a_rock_for_each_point() {
    for seed in 0..40u64 {
        let mut entropy = Entropy::new(vec![seed, seed * 7 + 1, seed * 13 + 5, 3, 99, 1234567]);
        let queue = Director::create_enemies_and_spawntimes(&mut entropy, 1, 22 * UNIT);
        assert_eq!(queue.len(), 16);
        assert!(queue.iter().all(|(kind, _)| *kind == EnemyType::Rock));
    }
}

#[test]
fn lane_is_picked_by_three_words() {
    let mut entropy = Entropy::new(vec![1, 5, 7, 2, 250_000_001 + 9, 20_000_001 + 3, 0]);
    let (pos, vel) = create_spawn_pos_vel(&mut entropy, 480 * UNIT, 270 * UNIT);
    assert_eq!(pos, Vec2::new(490 * UNIT, 10 * UNIT + 5));
    assert_eq!(vel, Vec2::new(-(20 * UNIT + 7), 0));
    assert_eq!(entropy.cursor, 3);
    let (pos, vel) = create_spawn_pos_vel(&mut entropy, 480 * UNIT, 270 * UNIT);
    assert_eq!(pos, Vec2::new(-10 * UNIT, 10 * UNIT + 9));
    assert_eq!(vel, Vec2::new(20 * UNIT + 3, 0));
    assert_eq!(entropy.cursor, 6);
}

#[test]
fn only_a_jittering_outline_takes_draws() {
    let stock: Vec<u64> = vec![3, 1_000_001 + 4, 500_000, 0, 1_000_000, 7, 8, 9];
    let t = Transform { pos: Vec2::new(100 * UNIT, 50 * UNIT), dir_angle: 0 };
    let strip = vec![Vec2::new(0, 0), Vec2::new(5 * UNIT, 0), Vec2::new(5 * UNIT, 5 * UNIT)];
    let mut calls: Vec<DrawCall> = Vec::new();

    let mut entropy = Entropy::new(stock.clone());
    let mut outline = Drawable::plain(MeshType::Linestrip(strip.clone()), color_hp(), 7);
    draw_drawable(&mut calls, &mut entropy, &t, &outline);
    assert_eq!(entropy.cursor, 0);
    let exact = match &calls[0] {
        DrawCall::Linestrip { points, .. } => points.clone(),
        _ => Vec::new(),
    };
    assert_eq!(exact.len(), 3);

    outline.add_jitter = true;
    outline.visible = false;
    draw_drawable(&mut calls, &mut entropy, &t, &outline);
    assert_eq!((calls.len(), entropy.cursor), (1, 0));

    outline.visible = true;
    draw_drawable(&mut calls, &mut entropy, &t, &outline);
    assert_eq!(entropy.cursor, 6);
    let moved = match &calls[1] {
        DrawCall::Linestrip { points, .. } => points.clone(),
        _ => Vec::new(),
    };
    assert_eq!(
        moved,
        vec![
            exact[0].plus(Vec2::new(3, 4)),
            exact[1].plus(Vec2::new(500_000, 0)),
            exact[2].plus(Vec2::new(1_000_000, 7)),
        ]
    );

    let mut circle = Drawable::plain(MeshType::Circle { radius: UNIT, filled: false }, color_hp(), 7);
    circle.add_jitter = true;
    draw_drawable(&mut calls, &mut entropy, &t, &circle);
    assert_eq!(entropy.cursor, 6);

    let mut model = Drawable::plain(MeshType::Linestrips(vec![vec![(0, 0), (1, 1)], vec![], vec![(2, 2)]]), color_hp(), 7);
    let mut entropy = Entropy::new(stock.clone());
    draw_drawable(&mut calls, &mut entropy, &t, &model);
    assert_eq!(entropy.cursor, 0);
    model.add_jitter = true;
    draw_drawable(&mut calls, &mut entropy, &t, &model);
    assert_eq!(entropy.cursor, 6);
}

#[test]
fn strip_without_jitter_takes_no_draw() {
    let mut entropy = Entropy::new(vec![1, 2, 3, 4, 5]);
    let strip = vec![Vec2::new(UNIT, 0), Vec2::new(0, UNIT)];
    let pos = Vec2::new(10 * UNIT, 20 * UNIT);
    let plain = linestrip_transform(&strip, pos, Vec2::zero(), Vec2::ones(), Vec2::unit_x(), false, &mut entropy);
    assert_eq!(entropy.cursor, 0);
    let shaken = linestrip_transform(&strip, pos, Vec2::zero(), Vec2::ones(), Vec2::unit_x(), true, &mut entropy);
    assert_eq!(entropy.cursor, 4);
    assert_eq!(shaken, vec![plain[0].plus(Vec2::new(1, 2)), plain[1].plus(Vec2::new(3, 4))]);
}

#[test]
fn label_scramble_follows_its_words() {
    let stock: Vec<u64> = vec![100_000, 11, 900_000, 0, 1, 500_000, 10_000, 2, 999_999, 5, 5, 5];
    let mut entropy = Entropy::new(stock.clone());
    let mut label = InfoText::new(Vec2::new(5, 5), "AB", color_hp());
    assert_eq!(label.update_and_check_if_finished(&mut entropy, 600_000), (false, true));
    assert_eq!(entropy.cursor, 0);
    assert_eq!(label.text, vec!['A', 'B']);
    label.update_and_check_if_finished(&mut entropy, 100_000);
    assert_eq!(entropy.cursor, 9);
    assert_eq!(entropy.words, stock);
    assert_eq!(label.text, vec!['!', 'B']);
    assert_eq!(label.text_color_foreground, vec![color_hp(), palette(2)]);
    assert_eq!(label.text_color_background, vec![palette(1), color_transparent()]);
    assert_eq!(palette(2), color_ammo());
}

#[test]
fn rock_is_picked_by_eighteen_words() {
    let mut stock: Vec<u64> = vec![90_000_000, 360_000_000 + 45_000_000];
    for k in 0..8u64 {
        // Distance up by k units of 100_000, direction unchanged.
        stock.push(2_500_000 + k * 100_000);
        stock.push(11_250_000);
    }
    stock.push(77);
    stock.push(78);
    let mut entropy = Entropy::new(stock);
    let rock = stage_sim::archetypes::Archetypes::new_enemy_rock(
        &mut entropy,
        Vec2::new(1, 2),
        Vec2::new(3, 4),
        8 * UNIT,
    );
    assert_eq!(entropy.cursor, 18);
    assert_eq!(rock.transform.unwrap().dir_angle, 90_000_000);
    assert_eq!(rock.motion.unwrap().dir_angle_vel, 45_000_000);
    match &rock.drawable.as_ref().unwrap().mesh {
        MeshType::Linestrip(points) => {
            assert_eq!(points.len(), 9);
            // The first corner lies on the x axis, the third on the y axis.
            assert_eq!(points[0], Vec2::new(10 * UNIT, 0));
            assert_eq!(points[2].x, 0);
            assert_eq!(points[2].y.abs(), 10 * UNIT + 200_000);
            assert_eq!(points[4], Vec2::new(-(10 * UNIT + 400_000), 0));
            assert_eq!(points[8], points[0]);
        },
        _ => panic!("a rock is an outline"),
    }
}

#[test]
fn first_round_is_planned_by_thirty_two_words() {
    let stock: Vec<u64> = (0..40u64).map(|k| k * 7_919_000_123 + 5).collect();
    let mut entropy = Entropy::new(stock.clone());
    let director = Director::new(&mut entropy);
    assert_eq!(entropy.cursor, 32);
    let span: u64 = 22 * 1_000_000 - 1;
    let mut times: Vec<i64> = stock[16..32].iter().map(|word| 1 + (word % span) as i64).collect();
    times.sort();
    let planned: Vec<i64> = director.round_enemies_and_spawntimes.iter().map(|(_, time)| *time).collect();
    assert_eq!(planned, times);
}

#[test]
fn director_takes_a_word_for_each_pickup() {
    let mut entropy = Entropy::new((0..64u64).map(|k| k * 31 + 3).collect());
    let mut director = Director::new(&mut entropy);
    assert_eq!(entropy.cursor, 32);
    // Nothing is due in a short frame.
    director.update_and_spawn_enemies_and_collectibles(&mut entropy, 1000);
    assert_eq!(entropy.cursor, 32);
    // After 16 seconds a resource is due, and nothing else draws.
    let spawn = director.update_and_spawn_enemies_and_collectibles(&mut entropy, 16 * UNIT);
    assert!(spawn.1.is_some() && spawn.2.is_none());
    assert_eq!(entropy.cursor, 33);
}

#[test]
fn ammunition_drop_is_picked_by_six_words() {
    let mut entropy = Entropy::new(vec![8 * 1_000_000 + 3, 5, 20_000_000 + 7, 20_000_000 - 9, 45_000_000, 360_000_000 + 90_000_000, 1]);
    let at = Vec2::new(100 * UNIT, 50 * UNIT);
    let drop = stage_sim::enemy::make_drop(at, 8 * UNIT, 77, &mut entropy);
    assert_eq!(entropy.cursor, 6);
    let t = drop.transform.unwrap();
    assert_eq!(t.pos, Vec2::new(100 * UNIT + 3, 50 * UNIT - 8 * UNIT + 5));
    assert_eq!(t.dir_angle, 45_000_000);
    let m = drop.motion.unwrap();
    assert_eq!(m.vel, Vec2::new(7, -9));
    assert_eq!(m.dir_angle_vel, 90_000_000);
    assert_eq!(drop.follow.unwrap().target, 77);
}

#[test]
fn debris_takes_one_word_and_five_for_each_piece() {
    let ctx = StageCtx { deltatime: 16_667, canvas_width: 480 * UNIT, canvas_height: 270 * UNIT, player: 1 };
    let stock: Vec<u64> = (0..200u64).map(|k| k * 1_000_003 + 2).collect();
    let mut entropy = Entropy::new(stock.clone());
    let mut commands = WorldCommandBuffer::new();
    let fatal = Some(response_for(0, 10 * UNIT));
    damage_effects(9, Vec2::new(5, 6), &fatal, &ctx, &mut entropy, &mut commands);
    // The first word selects the number of pieces, from 16 up to 31.
    let pieces = 16 + (stock[0] % 16) as usize;
    assert_eq!(commands.commands.len(), 2 + pieces);
    assert_eq!(commands.commands[0], Command::Despawn(9));
    assert_eq!(entropy.cursor, 1 + 5 * pieces);
    match &commands.commands[2] {
        Command::Spawn(piece) => {
            assert_eq!(piece.transform.unwrap().dir_angle, (stock[1] % 360_000_001) as i64);
            assert_eq!(piece.autoremove.unwrap().timer.time_end, 300_000 + (stock[5] % 200_001) as i64);
        },
        _ => panic!("debris is spawned"),
    }
    let mut none = WorldCommandBuffer::new();
    damage_effects(9, Vec2::new(5, 6), &None, &ctx, &mut entropy, &mut none);
    assert!(none.commands.is_empty());
    assert_eq!(entropy.cursor, 1 + 5 * pieces);
}
