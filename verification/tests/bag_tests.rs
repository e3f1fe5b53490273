use stage_sim::attack::AttackType;
use stage_sim::director::{Director, EnemyType, ResourceType};
use stage_sim::fixed::UNIT;
use stage_sim::random::Entropy;
use stage_sim::shufflebag::{sum_of, Shufflebag};

fn words(seed: u64, count: usize) -> Vec<u64> {
    let mut state = seed;
    let mut out = Vec::with_capacity(count);
    for _ in 0..count {
        state = state.wrapping_mul(6364136223846793005).wrapping_add(1442695040888963407);
        out.push(state >> 11);
    }
    out
}

#[test]
fn entropy_reads_its_words_in_order_and_starts_over() {
    let mut entropy = Entropy::new(vec![5, 6, 7]);
    assert_eq!(entropy.next_word(), 5);
    assert_eq!(entropy.next_word(), 6);
    assert_eq!(entropy.next_word(), 7);
    assert_eq!(entropy.next_word(), 5);
    let mut empty = Entropy::new(Vec::new());
    assert_eq!(empty.next_word(), 0);
    assert_eq!(empty.range(3, 9), 3);
}

#[test]
fn entropy_draws_are_fixed_functions_of_the_word() {
    let mut entropy = Entropy::new(vec![17, 17, 17, 250_000, 199_999]);
    assert_eq!(entropy.below(5), 2);
    assert_eq!(entropy.range(10, 14), 12);
    assert_eq!(entropy.range(9, 3), 9);
    assert!(!entropy.chance(250_000));
    assert!(entropy.chance(200_000));
    let mut wide = Entropy::new(vec![u64::MAX]);
    let v = wide.range(i64::MIN, i64::MAX);
    assert_eq!(v, i64::MAX);
}

#[test]
fn random_offset_takes_two_draws() {
    let mut entropy = Entropy::new(vec![3, 10, 7]);
    let v = stage_sim::enemy::random_offset(&mut entropy, 5);
    assert_eq!((v.x, v.y), (-2, 5));
    assert_eq!(entropy.cursor, 2);
    let w = stage_sim::enemy::random_offset(&mut entropy, -5);
    assert_eq!((w.x, w.y), (5, 5));
    assert_eq!(entropy.cursor, 1);
    let still = stage_sim::enemy::random_offset(&mut entropy, 0);
    assert_eq!((still.x, still.y), (0, 0));
    assert_eq!(entropy.cursor, 0);
}

#[test]
fn weighted_bag_matches_its_weights_over_ten_thousand_draws() {
    let mut entropy = Entropy::new(words(42, 10_000));
    let mut bag = Shufflebag::new_with_counts(&vec![
        (ResourceType::Boost, 28u64),
        (ResourceType::Health, 14u64),
        (ResourceType::Skillpoint, 58u64),
    ]);
    let (mut boost, mut health, mut skill) = (0u32, 0u32, 0u32);
    for _ in 0..10_000 {
        match bag.get_next(&mut entropy) {
            ResourceType::Boost => boost += 1,
            ResourceType::Health => health += 1,
            ResourceType::Skillpoint => skill += 1,
        }
    }
    assert_eq!((boost, health, skill), (2_800, 1_400, 5_800));
}

#[test]
fn one_round_of_the_bag_gives_out_every_item_once() {
    for seed in 0..20u64 {
        let mut entropy = Entropy::new(words(seed, 64));
        let mut bag = Shufflebag::new_with_counts(&vec![('a', 3u64), ('b', 0u64), ('c', 2u64)]);
        let mut drawn: Vec<char> = Vec::new();
        for _ in 0..5 {
            drawn.push(bag.get_next(&mut entropy));
        }
        drawn.sort();
        assert_eq!(drawn, vec!['a', 'a', 'a', 'c', 'c']);
        assert_eq!(bag.remaining, vec![0, 0, 0]);
        // The next draw refills the bag first.
        let next = bag.get_next(&mut entropy);
        assert!(next == 'a' || next == 'c');
        assert_eq!(sum_of(&bag.remaining), 4);
    }
}

#[test]
fn bag_selects_by_the_word() {
    let mut entropy = Entropy::new(vec![0, 0, 0, 0]);
    let mut bag = Shufflebag::new_with_counts(&vec![(1u8, 2u64), (2u8, 1u64)]);
    assert_eq!(bag.get_next(&mut entropy), 1);
    assert_eq!(bag.get_next(&mut entropy), 1);
    assert_eq!(bag.get_next(&mut entropy), 2);
    let mut high = Entropy::new(vec![2]);
    let mut other = Shufflebag::new_with_counts(&vec![(1u8, 2u64), (2u8, 1u64)]);
    assert_eq!(other.get_next(&mut high), 2);
}

#[test]
fn bag_drops_a_weight_that_would_not_fit() {
    let bag = Shufflebag::new_with_counts(&vec![('x', u64::MAX), ('y', 5u64), ('z', 0u64)]);
    assert_eq!(bag.counts, vec![u64::MAX, 0, 0]);
}

#[test]
fn spending_points_follow_the_cycle() {
    let expected: [i64; 13] = [16, 24, 24, 16, 32, 40, 40, 26, 52, 60, 60, 40, 80];
    for (index, points) in expected.iter().enumerate() {
        assert_eq!(Director::get_spending_points_for_difficulty(index + 1), *points, "difficulty {}", index + 1);
    }
    assert_eq!(Director::get_spending_points_for_difficulty(0), 16);
}

#[test]
fn enemy_costs_and_weights() {
    assert_eq!(Director::get_spending_cost_for_enemy(EnemyType::Rock), 1);
    assert_eq!(Director::get_spending_cost_for_enemy(EnemyType::Shooter), 2);
    let mut entropy = Entropy::new(words(1, 16));
    assert_eq!(Director::get_enemy_spawn_chance(&mut entropy, 1), vec![(EnemyType::Rock, 1)]);
    assert_eq!(
        Director::get_enemy_spawn_chance(&mut entropy, 2),
        vec![(EnemyType::Rock, 8), (EnemyType::Shooter, 4)]
    );
    assert_eq!(
        Director::get_enemy_spawn_chance(&mut entropy, 3),
        vec![(EnemyType::Rock, 8), (EnemyType::Shooter, 8)]
    );
    assert_eq!(
        Director::get_enemy_spawn_chance(&mut entropy, 4),
        vec![(EnemyType::Rock, 4), (EnemyType::Shooter, 8)]
    );
    let late = Director::get_enemy_spawn_chance(&mut entropy, 9);
    assert_eq!(late.len(), 2);
    assert!(late.iter().all(|(_, weight)| (2..=11).contains(weight)));
}

#[test]
fn round_plan_is_sorted_and_spends_the_budget() {
    for difficulty in 1..=24usize {
        for seed in 0..5u64 {
            let mut entropy = Entropy::new(words(seed * 100 + difficulty as u64, 4096));
            let queue = Director::create_enemies_and_spawntimes(&mut entropy, difficulty, 22 * UNIT);
            let budget = Director::get_spending_points_for_difficulty(difficulty);
            let spend: i64 = queue.iter().map(|(kind, _)| Director::get_spending_cost_for_enemy(*kind)).sum();
            assert!(spend <= budget, "difficulty {}", difficulty);
            assert!(spend > budget - 2, "difficulty {}", difficulty);
            let times: Vec<i64> = queue.iter().map(|(_, time)| *time).collect();
            assert!(times.windows(2).all(|pair| pair[0] <= pair[1]));
            assert!(times.iter().all(|time| 0 < *time && *time < 22 * UNIT));
        }
    }
}

#[test]
fn first_round_is_all_rocks() {
    let mut entropy = Entropy::new(words(7, 256));
    let director = Director::new(&mut entropy);
    assert_eq!(director.difficulty, 1);
    assert_eq!(director.round_duration, 22 * UNIT);
    assert_eq!(director.round_enemies_and_spawntimes.len(), 16);
    assert!(director.round_enemies_and_spawntimes.iter().all(|(kind, _)| *kind == EnemyType::Rock));
}

#[test]
fn director_spawns_on_its_timers_and_raises_the_difficulty() {
    let mut entropy = Entropy::new(words(3, 4096));
    let mut director = Director::new(&mut entropy);
    let step: i64 = 100_000;
    let (mut enemies, mut resources, mut attacks) = (0, 0, 0);
    // One round and a half.
    for frame in 1..=330 {
        let clock_before = director.timer_round.time_cur;
        let next_due = director.round_enemies_and_spawntimes.front().map(|(_, time)| *time);
        let (enemy, resource, attack) = director.update_and_spawn_enemies_and_collectibles(&mut entropy, step);
        if let Some(due) = next_due {
            assert_eq!(enemy.is_some(), due <= clock_before + step);
        } else {
            assert!(enemy.is_none());
        }
        if enemy.is_some() {
            enemies += 1;
        }
        if resource.is_some() {
            resources += 1;
            assert_eq!(frame % 160, 0);
        }
        if let Some(kind) = attack {
            attacks += 1;
            assert_eq!(frame % 300, 0);
            assert_ne!(kind, AttackType::Neutral);
        }
        assert_eq!(director.difficulty, if frame >= 220 { 2 } else { 1 });
    }
    assert_eq!(resources, 2);
    assert_eq!(attacks, 1);
    assert!(enemies >= 16);
}

#[test]
fn director_resources_come_out_of_one_persistent_bag() {
    let mut entropy = Entropy::new(words(11, 4096));
    let mut director = Director::new(&mut entropy);
    let (mut boost, mut health, mut skill) = (0, 0, 0);
    let mut frames = 0;
    while boost + health + skill < 100 {
        let (_, resource, _) = director.update_and_spawn_enemies_and_collectibles(&mut entropy, 8 * UNIT);
        match resource {
            Some(ResourceType::Boost) => boost += 1,
            Some(ResourceType::Health) => health += 1,
            Some(ResourceType::Skillpoint) => skill += 1,
            None => {}
        }
        frames += 1;
        assert!(frames < 1000);
    }
    assert_eq!((boost, health, skill), (28, 14, 58));
}
