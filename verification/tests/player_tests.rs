use stage_sim::attack::{
    get_draw_lines_for_ship, get_exhaust_points_for_ship, get_shoot_points_for_ship, AttackType, ShipType,
};
use stage_sim::census::{find_fact, find_pose, take_census, Fact};
use stage_sim::color::{color_ammo, color_boost, color_hp, color_neutral, color_skill_point, palette, Color};
use stage_sim::components::{Collectible, CollectibleType, Components, Player, Projectile, Transform};
use stage_sim::fixed::UNIT;
use stage_sim::player::{
    boost_step, pick_up, pool_changed, resolve_pickups, response_for, sum_contact_damage, take_damage, flicker,
    steer_step, Keys, Severity,
};
use stage_sim::shooting::{muzzle, plan_shots, Shot};
use stage_sim::skill::{push_decimal, Skill};
use stage_sim::store::Row;
use stage_sim::timer::TimerSimple;
use stage_sim::vec2::Vec2;

fn plain_player() -> Player {
    Player::new(12 * UNIT, ShipType::Sorcerer, &Vec::new())
}

fn no_keys() -> Keys {
    Keys { up: false, down: false, left: false, right: false }
}

fn fact(id: u64) -> Fact {
    Fact { id, transform: None, projectile: None, collectible: None, is_enemy: false, is_player: false }
}

fn collectible_fact(id: u64, kind: CollectibleType) -> Fact {
    Fact { collectible: Some(Collectible { collectible: kind, color: color_hp(), size: UNIT }), ..fact(id) }
}

#[test]
fn skills_size_the_pools() {
    let p = plain_player();
    assert_eq!((p.hp, p.hp_max, p.hp_gain), (100 * UNIT, 100 * UNIT, 25 * UNIT));
    assert_eq!((p.ammo, p.ammo_max, p.ammo_gain), (100 * UNIT, 100 * UNIT, 5 * UNIT));
    assert_eq!((p.boost, p.boost_max, p.boost_gain), (100 * UNIT, 100 * UNIT, 25 * UNIT));
    assert_eq!(p.attack.typename, AttackType::Neutral);
    let skilled = Player::new(
        12 * UNIT,
        ShipType::Fighter,
        &vec![
            Skill::AddHp(15),
            Skill::AddPercentageBoost(50),
            Skill::AddPercentageHP(10),
            Skill::AddAmmo(-20),
            Skill::AddPercentageAmmo(25),
            Skill::AddBoost(10),
            Skill::AddHpGain(5),
            Skill::AddAmmoGain(1),
            Skill::AddBoostGain(-5),
        ],
    );
    assert_eq!(skilled.hp_max, 126_500_000);
    assert_eq!(skilled.hp, 126_500_000);
    assert_eq!(skilled.ammo_max, 100 * UNIT);
    assert_eq!(skilled.boost_max, 165 * UNIT);
    assert_eq!(skilled.hp_gain, 30 * UNIT);
    assert_eq!(skilled.ammo_gain, 6 * UNIT);
    assert_eq!(skilled.boost_gain, 20 * UNIT);
    let crushed = Player::new(12 * UNIT, ShipType::Rogue, &vec![Skill::AddHp(-500)]);
    assert_eq!(crushed.hp_max, 0);
}

#[test]
fn pools_stay_within_their_bounds() {
    assert_eq!(pool_changed(90 * UNIT, 25 * UNIT, 100 * UNIT), 100 * UNIT);
    assert_eq!(pool_changed(10 * UNIT, -25 * UNIT, 100 * UNIT), 0);
    assert_eq!(pool_changed(10 * UNIT, 25 * UNIT, 100 * UNIT), 35 * UNIT);
    assert_eq!(pool_changed(i64::MAX, i64::MAX, 100 * UNIT), 100 * UNIT);
    assert_eq!(pool_changed(i64::MIN, i64::MIN, 100 * UNIT), 0);
    let settled = pool_changed(250 * UNIT, 0, 100 * UNIT);
    assert_eq!(pool_changed(settled, 0, 100 * UNIT), settled);
}

#[test]
fn pickups_fill_the_pools_by_their_gain() {
    let mut p = plain_player();
    p.hp = 50 * UNIT;
    p.ammo = 98 * UNIT;
    p.boost = 10 * UNIT;
    p.boost_allowed = false;
    pick_up(&mut p, CollectibleType::Hp);
    assert_eq!(p.hp, 75 * UNIT);
    pick_up(&mut p, CollectibleType::Ammo);
    assert_eq!(p.ammo, 100 * UNIT);
    pick_up(&mut p, CollectibleType::Boost);
    assert_eq!(p.boost, 35 * UNIT);
    assert!(!p.boost_allowed);
    pick_up(&mut p, CollectibleType::Boost);
    assert_eq!(p.boost, 60 * UNIT);
    assert!(p.boost_allowed);
    assert!(!p.boost_cooldown_timer.is_running());
    let before = p;
    pick_up(&mut p, CollectibleType::Skillpoint);
    assert_eq!(p, before);
    p.ammo = 3 * UNIT;
    pick_up(&mut p, CollectibleType::Attack(AttackType::Triple));
    assert_eq!(p.ammo, 100 * UNIT);
    assert_eq!(p.attack, AttackType::Triple.attack());
    assert_eq!(p.reload_timer.time_interval, 320_000);
}

#[test]
fn touching_collectibles_scores() {
    let facts = vec![
        collectible_fact(1, CollectibleType::Boost),
        collectible_fact(2, CollectibleType::Ammo),
        collectible_fact(3, CollectibleType::Hp),
        collectible_fact(4, CollectibleType::Skillpoint),
        collectible_fact(5, CollectibleType::Attack(AttackType::Back)),
        fact(6),
    ];
    let mut p = plain_player();
    p.hp = UNIT;
    let gain = resolve_pickups(&mut p, &vec![1, 2, 3, 4, 4, 5, 6, 77], &facts);
    assert_eq!(gain, (150 + 50 + 100 + 250 + 250 + 500, 2));
    assert_eq!(p.hp, 26 * UNIT);
    assert_eq!(p.attack.typename, AttackType::Back);
    let mut other = plain_player();
    assert_eq!(resolve_pickups(&mut other, &Vec::new(), &facts), (0, 0));
    assert_eq!(other, plain_player());
}

#[test]
fn enemies_and_shots_hurt_unless_invincible() {
    let facts = vec![
        Fact { is_enemy: true, ..fact(1) },
        Fact { projectile: Some(Projectile { length: UNIT, color: color_hp(), damage: 10 * UNIT }), ..fact(2) },
        collectible_fact(3, CollectibleType::Hp),
    ];
    assert_eq!(sum_contact_damage(false, &vec![1, 2, 3, 9], &facts), 40 * UNIT);
    assert_eq!(sum_contact_damage(false, &vec![1, 1], &facts), 60 * UNIT);
    assert_eq!(sum_contact_damage(true, &vec![1, 2], &facts), 0);
    assert_eq!(sum_contact_damage(false, &Vec::new(), &facts), 0);
}

#[test]
fn damage_is_answered_by_its_severity() {
    let mut p = plain_player();
    let light = take_damage(&mut p, 10 * UNIT).unwrap();
    assert_eq!(p.hp, 90 * UNIT);
    assert_eq!(light.severity, Severity::Light);
    assert_eq!((light.slowmotion_duration, light.slowmotion_factor), (250_000, 750_000));
    assert_eq!((light.particle_count_min, light.particle_count_max, light.screenflash_framecount), (4, 8, 2));
    assert_eq!(light.screenshake_duration, 100_000);
    assert!(!p.invincible_timer.is_running());
    let heavy = take_damage(&mut p, 30 * UNIT).unwrap();
    assert_eq!(p.hp, 60 * UNIT);
    assert_eq!(heavy.severity, Severity::Heavy);
    assert_eq!((heavy.slowmotion_duration, heavy.slowmotion_factor), (500_000, 250_000));
    assert_eq!((heavy.particle_count_min, heavy.particle_count_max, heavy.screenflash_framecount), (8, 16, 3));
    assert!(p.invincible_timer.is_running());
    let fatal = take_damage(&mut p, 500 * UNIT).unwrap();
    assert_eq!(p.hp, 0);
    assert_eq!(fatal.severity, Severity::Fatal);
    assert_eq!((fatal.slowmotion_duration, fatal.slowmotion_factor), (UNIT, 150_000));
    assert_eq!((fatal.particle_count_min, fatal.particle_count_max, fatal.screenflash_framecount), (16, 32, 4));
    assert_eq!((fatal.screenshake_amplitude, fatal.screenshake_duration, fatal.screenshake_frequency), (6 * UNIT, 200_000, 80 * UNIT));
    let mut fresh = plain_player();
    assert_eq!(take_damage(&mut fresh, 0), None);
    assert_eq!(take_damage(&mut fresh, -5), None);
    assert_eq!(fresh, plain_player());
    assert_eq!(response_for(5, 29_999_999).severity, Severity::Light);
    assert_eq!(response_for(5, 30_000_000).severity, Severity::Heavy);
}

#[test]
fn boost_drains_locks_and_recovers() {
    let mut p = plain_player();
    let up = Keys { up: true, ..no_keys() };
    assert!(boost_step(&mut p, &up, 100_000));
    assert_eq!(p.boost, 95 * UNIT);
    assert_eq!(p.speed_max, 150 * UNIT);
    let down = Keys { down: true, ..no_keys() };
    assert!(boost_step(&mut p, &down, 100_000));
    assert_eq!(p.boost, 90 * UNIT);
    assert_eq!(p.speed_max, 50 * UNIT);
    assert!(!boost_step(&mut p, &no_keys(), 100_000));
    assert_eq!(p.boost, 91 * UNIT);
    assert_eq!(p.speed_max, 100 * UNIT);
    // Drain it.
    assert!(boost_step(&mut p, &up, 2 * UNIT));
    assert_eq!(p.boost, 0);
    assert!(!p.boost_allowed);
    assert!(p.boost_cooldown_timer.is_running());
    assert_eq!(p.boost_cooldown_timer.time_end, 2 * UNIT);
    // Locked: the key does nothing, the pool refills, the clock runs.
    assert!(!boost_step(&mut p, &up, UNIT));
    assert_eq!(p.boost, 10 * UNIT);
    assert_eq!(p.speed_max, 100 * UNIT);
    assert!(!p.boost_allowed);
    assert_eq!(p.boost_cooldown_timer.time_cur, UNIT);
    // The lockout lasts until the pool is past half.
    for _ in 0..4 {
        assert!(!boost_step(&mut p, &up, UNIT));
        assert!(!p.boost_allowed);
    }
    assert_eq!(p.boost, 50 * UNIT);
    assert!(!boost_step(&mut p, &up, 1));
    assert!(p.boost_allowed);
    assert_eq!(p.boost, 50 * UNIT + 10);
    assert!(!p.boost_cooldown_timer.is_running());
    assert!(boost_step(&mut p, &up, 0));
}

#[test]
fn steering_turns_and_accelerates() {
    let mut p = plain_player();
    let mut m = stage_sim::components::Motion {
        vel: Vec2::zero(),
        acc: Vec2::zero(),
        dir_angle_vel: 5,
        dir_angle_acc: 0,
    };
    steer_step(&mut p, &mut m, -90_000_000, &Keys { left: true, ..no_keys() }, 500_000);
    assert_eq!(p.speed, 50 * UNIT);
    assert_eq!(m.dir_angle_vel, 298_800_000);
    assert_eq!(m.vel, Vec2::new(0, 50 * UNIT));
    steer_step(&mut p, &mut m, 0, &Keys { left: true, right: true, ..no_keys() }, 2 * UNIT);
    assert_eq!(p.speed, 100 * UNIT);
    assert_eq!(m.dir_angle_vel, -298_800_000);
    assert_eq!(m.vel, Vec2::new(100 * UNIT, 0));
    steer_step(&mut p, &mut m, 0, &no_keys(), 0);
    assert_eq!(m.dir_angle_vel, 0);
}

#[test]
fn invincible_ship_flickers() {
    let mut timer = TimerSimple::new_started(2 * UNIT);
    assert!(!flicker(&timer));
    timer.update(40_000);
    assert!(flicker(&timer));
    timer.update(40_000);
    assert!(!flicker(&timer));
    timer.update(2 * UNIT);
    assert!(flicker(&timer));
    assert!(flicker(&TimerSimple::new_stopped(2 * UNIT)));
}

fn angles(shots: &Vec<Shot>) -> Vec<i64> {
    shots.iter().map(|shot| shot.dir_angle).collect()
}

#[test]
fn double_pattern_fires_two_shots_fifteen_degrees_either_side() {
    let attack = AttackType::Double.attack();
    let pos = Vec2::new(240 * UNIT, 135 * UNIT);
    let facing: i64 = -90_000_000;
    let at = muzzle(ShipType::Sorcerer, 12 * UNIT, pos, Vec2::from_angle_flipped_y(facing));
    assert_eq!(at, Vec2::new(240 * UNIT, 150 * UNIT));
    let shots = plan_shots(&attack, at, pos, facing, 0, color_neutral());
    assert_eq!(shots.len(), 2);
    assert_eq!(angles(&shots), vec![facing - 15_000_000, facing + 15_000_000]);
    assert!(shots.iter().all(|shot| shot.pos == at && shot.color == color_ammo()));
    assert_eq!(attack.ammo_consumption_on_shot, 2 * UNIT);
    assert_eq!(attack.reload_time, 320_000);
}

#[test]
fn every_pattern_has_its_fan() {
    let pos = Vec2::new(100 * UNIT, 100 * UNIT);
    let at = Vec2::new(112 * UNIT, 100 * UNIT);
    let plan = |kind: AttackType| plan_shots(&kind.attack(), at, pos, 0, 7_000_000, color_hp());
    assert_eq!(angles(&plan(AttackType::Neutral)), vec![0]);
    assert_eq!(angles(&plan(AttackType::Rapid)), vec![0]);
    assert_eq!(angles(&plan(AttackType::Triple)), vec![0, -15_000_000, 15_000_000]);
    let spread = plan(AttackType::Spread);
    assert_eq!(angles(&spread), vec![7_000_000]);
    assert_eq!(spread[0].color, color_hp());
    let back = plan(AttackType::Back);
    assert_eq!(angles(&back), vec![0, 180_000_000]);
    assert_eq!(back[1].pos, Vec2::new(88 * UNIT, 100 * UNIT));
    assert_eq!(back[0].color, color_skill_point());
    let side = plan(AttackType::Side);
    assert_eq!(angles(&side), vec![0, -90_000_000, 90_000_000]);
    assert_eq!(side[1].pos, Vec2::new(100 * UNIT, 112 * UNIT));
    assert_eq!(side[2].pos, Vec2::new(100 * UNIT, 88 * UNIT));
    assert!(side.iter().all(|shot| shot.color == color_boost()));
}

#[test]
fn attack_table() {
    let expect: [(AttackType, i64, i64, Color, &str, &str); 7] = [
        (AttackType::Neutral, 240_000, 0, color_neutral(), "Neutral", "N"),
        (AttackType::Double, 320_000, 2 * UNIT, color_ammo(), "Double", "2"),
        (AttackType::Triple, 320_000, 3 * UNIT, color_boost(), "Triple", "3"),
        (AttackType::Rapid, 120_000, UNIT, color_neutral(), "Rapid", "R"),
        (AttackType::Spread, 160_000, UNIT, color_neutral(), "Spread", "RS"),
        (AttackType::Back, 320_000, 2 * UNIT, color_skill_point(), "Back", "Ba"),
        (AttackType::Side, 320_000, 3 * UNIT, color_boost(), "Side", "Si"),
    ];
    for (kind, reload, ammo, color, name, short) in expect {
        let attack = kind.attack();
        assert_eq!(attack.typename, kind);
        assert_eq!(attack.reload_time, reload);
        assert_eq!(attack.ammo_consumption_on_shot, ammo);
        assert_eq!(attack.color, color);
        assert_eq!(kind.name(), name);
        assert_eq!(kind.name_abbreviation(), short);
    }
    let granted: Vec<AttackType> = (0..12).map(AttackType::grantable).collect();
    assert!(granted.iter().all(|kind| *kind != AttackType::Neutral));
    assert_eq!(&granted[0..6], &[
        AttackType::Double,
        AttackType::Triple,
        AttackType::Rapid,
        AttackType::Spread,
        AttackType::Back,
        AttackType::Side,
    ]);
    assert_eq!(&granted[6..12], &granted[0..6]);
}

#[test]
fn ship_models() {
    let fighter = get_draw_lines_for_ship(ShipType::Fighter);
    assert_eq!(fighter.len(), 3);
    assert_eq!(fighter[0], vec![(4, 0), (2, -2), (-2, -2), (-3, -1), (-4, 0), (-3, 1), (-2, 2), (2, 2), (4, 0)]);
    assert_eq!(fighter[1], vec![(2, -2), (0, -4), (-6, -4), (-3, -1)]);
    let rogue = get_draw_lines_for_ship(ShipType::Rogue);
    assert_eq!(rogue[2], vec![(2, 1), (1, 3), (-7, 7), (-2, 2)]);
    let sorcerer = get_draw_lines_for_ship(ShipType::Sorcerer);
    assert_eq!(sorcerer[0], vec![(5, 0), (2, -2), (-4, 0), (2, 2), (5, 0)]);
    assert_eq!(get_shoot_points_for_ship(ShipType::Fighter), vec![(4, 0)]);
    assert_eq!(get_shoot_points_for_ship(ShipType::Rogue), vec![(4, 0)]);
    assert_eq!(get_shoot_points_for_ship(ShipType::Sorcerer), vec![(5, 0)]);
    assert_eq!(get_exhaust_points_for_ship(ShipType::Fighter), vec![(-3, -1), (-3, 1)]);
    assert_eq!(get_exhaust_points_for_ship(ShipType::Rogue), vec![(-3, -2), (-3, 2)]);
    assert_eq!(get_exhaust_points_for_ship(ShipType::Sorcerer), vec![(-4, 0)]);
}

#[test]
fn skill_names_and_descriptions() {
    assert_eq!(Skill::AddPercentageHP(10).name(), "HP");
    assert_eq!(Skill::AddPercentageAmmo(10).name(), "Ammo");
    assert_eq!(Skill::AddPercentageBoost(10).name(), "Boost");
    assert_eq!(Skill::AddHp(1).name(), "Flat HP");
    assert_eq!(Skill::AddAmmo(1).name(), "Flat Ammo");
    assert_eq!(Skill::AddBoost(1).name(), "Flat Boost");
    assert_eq!(Skill::AddHpGain(1).name(), "HP Gain");
    assert_eq!(Skill::AddAmmoGain(1).name(), "Ammo Gain");
    assert_eq!(Skill::AddBoostGain(1).name(), "Boost Gain");
    assert_eq!(Skill::AddPercentageHP(10).description(), "+10% HP");
    assert_eq!(Skill::AddPercentageAmmo(0).description(), "+0% Ammo");
    assert_eq!(Skill::AddPercentageBoost(50).description(), "+50% Boost");
    assert_eq!(Skill::AddHp(15).description(), "+15 HP");
    assert_eq!(Skill::AddAmmo(-7).description(), "+-7 Ammo");
    assert_eq!(Skill::AddBoost(i32::MAX).description(), "+2147483647 Boost");
    assert_eq!(Skill::AddHpGain(i32::MIN).description(), "+-2147483648 HP Gain");
    assert_eq!(Skill::AddAmmoGain(1005).description(), "+1005 Ammo Gain");
    assert_eq!(Skill::AddBoostGain(9).description(), "+9 Boost Gain");
    let mut text = String::from("x");
    push_decimal(&mut text, 120);
    assert_eq!(text, "x120");
}

#[test]
fn palette_wraps_and_complements() {
    assert_eq!(palette(0), color_neutral());
    assert_eq!(palette(1), color_hp());
    assert_eq!(palette(5), Color { r: 14, g: 152, b: 186, a: 255 });
    assert_eq!(palette(9), palette(0));
    assert_eq!(color_hp().negative().negative(), color_hp());
    assert_eq!(Color::lerp(color_neutral(), color_hp(), 0), color_neutral());
    assert_eq!(Color::lerp(color_neutral(), color_hp(), UNIT), color_hp());
    assert_eq!(
        Color::lerp(Color { r: 0, g: 200, b: 10, a: 255 }, Color { r: 100, g: 100, b: 10, a: 55 }, 500_000),
        Color { r: 50, g: 150, b: 10, a: 155 }
    );
}

#[test]
fn census_finds_the_first_row_of_an_entity() {
    let mut placed = Components::none();
    placed.transform = Some(Transform { pos: Vec2::new(3, 4), dir_angle: 5 });
    placed.player = Some(plain_player());
    let rows = vec![Row { id: 7, c: Components::none() }, Row { id: 9, c: placed.clone() }, Row { id: 7, c: placed }];
    let facts = take_census(&rows);
    assert_eq!(facts.len(), 3);
    assert_eq!(find_fact(&facts, 7), Some(fact(7)));
    assert_eq!(find_pose(&facts, 7), None);
    assert_eq!(find_pose(&facts, 9), Some(Transform { pos: Vec2::new(3, 4), dir_angle: 5 }));
    assert!(find_fact(&facts, 9).unwrap().is_player);
    assert_eq!(find_fact(&facts, 8), None);
}
