//! The director: it schedules enemies and pickups and raises the
//! difficulty round by round.
use std::collections::VecDeque;
use vstd::prelude::*;
use vstd::seq_lib::{to_multiset_build, to_multiset_insert};
use crate::attack::AttackType;
use crate::fixed::{FX_MAX, sat, fx_add, narrow, sadd};
use crate::random::{Entropy, pick_range};
use crate::shufflebag::{Shufflebag, sum_from};
use crate::timer::{TimerSimple, TriggerRepeating};

verus! {

#[derive(Clone, Copy, Debug, PartialEq, Eq, Hash, Structural)]
pub enum ResourceType {
    Boost,
    Skillpoint,
    Health,
}

#[derive(Clone, Copy, Debug, PartialEq, Eq, Hash, Structural)]
pub enum EnemyType {
    Rock,
    Shooter,
}

/// Seconds that a round lasts.
pub const ROUND_DURATION: i64 = 22_000_000;

/// Seconds between two attack pickups.
pub const ATTACK_INTERVAL: i64 = 30_000_000;

/// Seconds between two resource pickups.
pub const RESOURCE_INTERVAL: i64 = 16_000_000;

/// What the most expensive enemy costs.
pub const MAX_ENEMY_COST: i64 = 2;

/// The budget after one more difficulty step. Steps come in cycles of
/// four: add 8, stay, take two thirds, double.
pub open spec fn budget_step(points: i64, step: int) -> i64 {
    let phase = (step - 1) % 4;
    if phase == 0 {
        sadd(points, 8)
    } else if phase == 1 {
        points
    } else if phase == 2 {
        ((points * 2) / 3) as i64
    } else {
        sat(points * 2) as i64
    }
}

/// The budget after the steps `1 .. upto`; it starts at 16.
pub open spec fn budget_after(upto: int) -> i64
    decreases upto,
{
    if upto <= 1 {
        16
    } else {
        budget_step(budget_after(upto - 1), upto - 1)
    }
}

/// The points that a round of the given difficulty may spend on enemies.
pub open spec fn spending_points(difficulty: usize) -> i64 {
    budget_after(difficulty as int)
}

/// Through every cycle the budget stays at 16 or more.
pub proof fn lemma_budget_floor(upto: int)
    requires
        upto >= 1,
    ensures
        16 <= budget_after(upto) <= FX_MAX,
        (upto - 1) % 4 == 1 ==> budget_after(upto) >= 24,
        (upto - 1) % 4 == 2 ==> budget_after(upto) >= 24,
    decreases upto,
{
    if upto > 1 {
        lemma_budget_floor(upto - 1);
        let before = budget_after(upto - 1);
        let phase = (upto - 2) % 4;
        assert((upto - 1) % 4 == (phase + 1) % 4) by (nonlinear_arith)
            requires
                phase == (upto - 2) % 4,
        ;
        if phase == 2 {
            assert((before * 2) / 3 >= 16) by (nonlinear_arith)
                requires
                    before >= 24,
            ;
            assert((before * 2) / 3 <= before) by (nonlinear_arith)
                requires
                    before >= 0,
            ;
        }
    }
}

/// Whether the times never decrease along the queue.
pub open spec fn sorted_by_time(queue: Seq<(EnemyType, i64)>) -> bool {
    forall|i: int, j: int| 0 <= i <= j < queue.len() ==> queue[i].1 <= queue[j].1
}

pub open spec fn sorted(times: Seq<i64>) -> bool {
    forall|i: int, j: int| 0 <= i <= j < times.len() ==> times[i] <= times[j]
}

pub open spec fn cost_spec(enemy: EnemyType) -> i64 {
    match enemy {
        EnemyType::Rock => 1,
        EnemyType::Shooter => 2,
    }
}

/// What the enemies of a queue cost together.
pub open spec fn total_cost(queue: Seq<(EnemyType, i64)>) -> int
    decreases queue.len(),
{
    if queue.len() == 0 {
        0
    } else {
        total_cost(queue.drop_last()) + cost_spec(queue.last().0)
    }
}

pub open spec fn kinds_cost(kinds: Seq<EnemyType>) -> int
    decreases kinds.len(),
{
    if kinds.len() == 0 {
        0
    } else {
        kinds_cost(kinds.drop_last()) + cost_spec(kinds.last())
    }
}

/// A spawn time lies strictly inside the round, as far as the round has
/// room for it.
pub open spec fn time_in_round(time: i64, round_duration: i64) -> bool {
    if round_duration >= 2 {
        0 < time < round_duration
    } else {
        time == 0
    }
}

/// What the dearest enemy costs that a round of the given difficulty can
/// hold: the first round has rocks only.
pub open spec fn dearest_cost(difficulty: usize) -> i64 {
    if difficulty == 1 {
        1
    } else {
        MAX_ENEMY_COST
    }
}

/// What a freshly generated round holds: its enemies are ordered by spawn
/// time, every time lies inside the round, and their cost uses up the
/// budget without exceeding it: less than the price of the dearest enemy
/// of the round is left over. The first round holds nothing but rocks, so
/// it holds one for each point of its budget.
pub open spec fn is_round_plan(queue: Seq<(EnemyType, i64)>, difficulty: usize, round_duration: i64) -> bool {
    &&& sorted_by_time(queue)
    &&& forall|i: int| 0 <= i < queue.len() ==> time_in_round(#[trigger] queue[i].1, round_duration)
    &&& total_cost(queue) <= spending_points(difficulty)
    &&& total_cost(queue) > spending_points(difficulty) - dearest_cost(difficulty)
    &&& difficulty == 1 ==> forall|i: int| 0 <= i < queue.len() ==> (#[trigger] queue[i]).0 == EnemyType::Rock
    &&& difficulty == 1 ==> queue.len() == 16
}

/// The weights of the enemy kinds at a difficulty. The first four
/// difficulties have fixed weights; at later ones two words select a
/// weight between 2 and 11 for each kind.
pub open spec fn spawn_weights(difficulty: usize, rocks: u64, shooters: u64) -> Seq<(EnemyType, u64)> {
    if difficulty <= 1 {
        seq![(EnemyType::Rock, 1u64)]
    } else if difficulty == 2 {
        seq![(EnemyType::Rock, 8u64), (EnemyType::Shooter, 4u64)]
    } else if difficulty == 3 {
        seq![(EnemyType::Rock, 8u64), (EnemyType::Shooter, 8u64)]
    } else if difficulty == 4 {
        seq![(EnemyType::Rock, 4u64), (EnemyType::Shooter, 8u64)]
    } else {
        seq![
            (EnemyType::Rock, pick_range(rocks, 2, 11) as u64),
            (EnemyType::Shooter, pick_range(shooters, 2, 11) as u64),
        ]
    }
}

/// The stock of the enemy bag of a round after `n` draws, where the words
/// after `from` draws select what is drawn.
pub open spec fn plan_stock(weights: Seq<(EnemyType, u64)>, e: Entropy, from: nat, n: nat) -> Seq<u64>
    decreases n,
{
    let counts = crate::shufflebag::fitted_counts(weights);
    if n == 0 {
        counts
    } else {
        crate::shufflebag::stock_after(
            counts,
            plan_stock(weights, e, from, (n - 1) as nat),
            e.word_after((from + n - 1) as nat),
        )
    }
}

/// The kind of enemy that the draw after `n` draws from the bag yields.
pub open spec fn plan_kind(weights: Seq<(EnemyType, u64)>, e: Entropy, from: nat, n: nat) -> EnemyType {
    weights[crate::shufflebag::drawn_kind(
        crate::shufflebag::fitted_counts(weights),
        plan_stock(weights, e, from, n),
        e.word_after(from + n),
    )].0
}

/// The draws that the table of a round takes.
pub open spec fn table_draws(difficulty: usize) -> nat {
    if difficulty <= 4 {
        0
    } else {
        2
    }
}

/// The draws that the table and the enemies of a round take: one for
/// each enemy of the round, and one more for the enemy that did not fit,
/// if the budget was not spent to the last point.
pub open spec fn kind_draws(queue: Seq<(EnemyType, i64)>, difficulty: usize) -> nat {
    let rest: nat = if total_cost(queue) < spending_points(difficulty) { 1 } else { 0 };
    table_draws(difficulty) + queue.len() + rest
}

/// The spawn times as they were drawn, one for each enemy of the round,
/// each by one word.
pub open spec fn times_drawn(queue: Seq<(EnemyType, i64)>, difficulty: usize, round_duration: i64, e: Entropy) -> Seq<i64> {
    Seq::new(
        queue.len(),
        |j: int| pick_range(e.word_after((kind_draws(queue, difficulty) + j) as nat), 1, (round_duration - 1) as i64),
    )
}

/// The spawn times of a round in the order of the queue.
pub open spec fn times_of(queue: Seq<(EnemyType, i64)>) -> Seq<i64> {
    Seq::new(queue.len(), |j: int| queue[j].1)
}

/// The round that the words of `e` select: the enemies are those that
/// the bag of the difficulty gives out, draw by draw, up to the first that
/// does not fit what is left of the budget; the spawn times are the times
/// drawn after that, in ascending order.
pub open spec fn is_planned_by(queue: Seq<(EnemyType, i64)>, difficulty: usize, round_duration: i64, e: Entropy) -> bool {
    let weights = spawn_weights(difficulty, e.word_after(0), e.word_after(1));
    let from = table_draws(difficulty);
    let left = spending_points(difficulty) - total_cost(queue);
    &&& forall|j: int| 0 <= j < queue.len() ==> (#[trigger] queue[j]).0 == plan_kind(weights, e, from, j as nat)
    &&& left > 0 ==> cost_spec(plan_kind(weights, e, from, queue.len())) > left
    &&& round_duration >= 2 ==> times_of(queue).to_multiset() == times_drawn(
        queue,
        difficulty,
        round_duration,
        e,
    ).to_multiset()
}

/// The draws that planning a round takes: those for the table and the
/// enemies, and one for the spawn time of each enemy if the round is long
/// enough to have any.
pub open spec fn plan_draws(queue: Seq<(EnemyType, i64)>, difficulty: usize, round_duration: i64) -> nat {
    kind_draws(queue, difficulty) + if round_duration >= 2 { queue.len() } else { 0 }
}

/// Sorts times in ascending order.
pub fn sort_times(times: &Vec<i64>) -> (out: Vec<i64>)
    ensures
        sorted(out@),
        out@.to_multiset() == times@.to_multiset(),
        out@.len() == times@.len(),
{
    let mut out: Vec<i64> = Vec::new();
    let mut i: usize = 0;
    assert(times@.take(0) == Seq::<i64>::empty());
    while i < times.len()
        invariant
            i <= times@.len(),
            out@.len() == i,
            sorted(out@),
            out@.to_multiset() == times@.take(i as int).to_multiset(),
        decreases times@.len() - i,
    {
        let x: i64 = times[i];
        let mut pos: usize = 0;
        while pos < out.len() && out[pos] <= x
            invariant
                pos <= out@.len(),
                forall|k: int| 0 <= k < pos ==> out@[k] <= x,
            decreases out@.len() - pos,
        {
            pos = pos + 1;
        }
        proof {
            to_multiset_insert(out@, pos as int, x);
            to_multiset_build(times@.take(i as int), x);
            assert(times@.take(i as int + 1) == times@.take(i as int).push(x));
            let next = out@.insert(pos as int, x);
            assert forall|a: int, b: int| 0 <= a <= b < next.len() implies next[a] <= next[b] by {
                if a < pos && b > pos {
                    assert(next[b] == out@[b - 1]);
                    assert(out@[pos as int] <= out@[b - 1]);
                } else if a > pos {
                    assert(next[a] == out@[a - 1]);
                    assert(next[b] == out@[b - 1]);
                } else if a == pos && b > pos {
                    assert(next[b] == out@[b - 1]);
                    assert(out@[pos as int] <= out@[b - 1]);
                }
            }
        }
        out.insert(pos, x);
        i = i + 1;
    }
    assert(times@.take(times@.len() as int) == times@);
    out
}

/// Elements of a sequence are elements of any sequence with the same
/// multiset, so a property of all of the one holds of all of the other.
pub proof fn lemma_same_elements(a: Seq<i64>, b: Seq<i64>, k: int)
    requires
        a.to_multiset() == b.to_multiset(),
        0 <= k < b.len(),
    ensures
        a.contains(b[k]),
{
    vstd::seq_lib::to_multiset_contains(a, b[k]);
    vstd::seq_lib::to_multiset_contains(b, b[k]);
    assert(b.contains(b[k]));
}

/// The bag gave out `kind` as one draw of the shuffle bag with `word`
/// does: the kind is the one that the word selects from the stock, and
/// the stock holds one less of it.
pub open spec fn drew_resource_by(
    before: Shufflebag<ResourceType>,
    after: Shufflebag<ResourceType>,
    kind: ResourceType,
    word: u64,
) -> bool {
    &&& crate::shufflebag::stock_after(before.counts@, before.remaining@, word) == after.remaining@
    &&& 0 <= crate::shufflebag::drawn_kind(before.counts@, before.remaining@, word) < before.items@.len()
    &&& kind == before.items@[crate::shufflebag::drawn_kind(before.counts@, before.remaining@, word)]
}

/// The bag gave out `kind` as one draw of the shuffle bag does, for some
/// random word.
pub open spec fn drew_resource(before: Shufflebag<ResourceType>, after: Shufflebag<ResourceType>, kind: ResourceType) -> bool {
    exists|word: u64| #[trigger] drew_resource_by(before, after, kind, word)
}

/// The draws that the pickups of a frame take: one for an attack pickup
/// and one for a resource pickup, each if it is due.
pub open spec fn pickup_draws(before: Director, deltatime: i64) -> nat {
    let attack: nat = if before.timer_spawn_attack.fires(deltatime as int) { 1 } else { 0 };
    let resource: nat = if before.timer_spawn_resource.fires(deltatime as int) { 1 } else { 0 };
    attack + resource
}

pub struct Director {
    pub difficulty: usize,
    pub timer_spawn_attack: TriggerRepeating,
    pub timer_spawn_resource: TriggerRepeating,
    pub timer_round: TimerSimple,
    pub round_duration: i64,
    /// The enemies of the round that are still to come, earliest first.
    pub round_enemies_and_spawntimes: VecDeque<(EnemyType, i64)>,
    /// The bag that resource pickups are drawn from.
    pub resource_bag: Shufflebag<ResourceType>,
}

impl Director {
    pub open spec fn wf(&self) -> bool {
        &&& self.difficulty >= 1
        &&& sorted_by_time(self.round_enemies_and_spawntimes@)
        &&& self.resource_bag.wf()
        &&& self.resource_bag.total() > 0
    }

    pub fn get_spending_cost_for_enemy(enemytype: EnemyType) -> (cost: i64)
        ensures
            cost == cost_spec(enemytype),
            1 <= cost <= MAX_ENEMY_COST,
    {
        match enemytype {
            EnemyType::Rock => 1,
            EnemyType::Shooter => 2,
        }
    }

    pub fn get_spending_points_for_difficulty(difficulty: usize) -> (points: i64)
        ensures
            points == spending_points(difficulty),
            difficulty >= 1 ==> points >= 16,
    {
        let mut points: i64 = 16;
        let mut n: usize = 1;
        while n < difficulty
            invariant
                1 <= n,
                n <= difficulty || difficulty == 0,
                difficulty == 0 ==> n == 1,
                points == budget_after(n as int),
                16 <= points <= FX_MAX,
            decreases difficulty - n,
        {
            let phase: usize = (n - 1) % 4;
            proof {
                lemma_budget_floor(n as int + 1);
            }
            points = if phase == 0 {
                fx_add(points, 8)
            } else if phase == 1 {
                points
            } else if phase == 2 {
                ((points as i128 * 2) / 3) as i64
            } else {
                narrow(points as i128 * 2)
            };
            n = n + 1;
        }
        points
    }

    /// The weights of the enemy kinds at a difficulty. The first four
    /// difficulties have fixed weights and take no draw; later ones draw a
    /// weight between 2 and 11 for each kind, first for rocks, then for
    /// shooters.
    pub fn get_enemy_spawn_chance(entropy: &mut Entropy, difficulty: usize) -> (weights: Vec<(EnemyType, u64)>)
        requires
            difficulty >= 1,
        ensures
            weights@ == spawn_weights(difficulty, old(entropy).word_after(0), old(entropy).word_after(1)),
            old(entropy).drawn(final(entropy), if difficulty <= 4 { 0 } else { 2 }),
            difficulty == 1 ==> weights@ == seq![(EnemyType::Rock, 1u64)],
            difficulty == 2 ==> weights@ == seq![(EnemyType::Rock, 8u64), (EnemyType::Shooter, 4u64)],
            difficulty == 3 ==> weights@ == seq![(EnemyType::Rock, 8u64), (EnemyType::Shooter, 8u64)],
            difficulty == 4 ==> weights@ == seq![(EnemyType::Rock, 4u64), (EnemyType::Shooter, 8u64)],
            difficulty >= 5 ==> {
                &&& weights@.len() == 2
                &&& weights@[0].0 == EnemyType::Rock
                &&& weights@[1].0 == EnemyType::Shooter
                &&& 2 <= weights@[0].1 <= 11
                &&& 2 <= weights@[1].1 <= 11
            },
            1 <= weights@.len() <= 2,
            forall|i: int| 0 <= i < weights@.len() ==> 1 <= (#[trigger] weights@[i]).1 <= 11,
    {
        if difficulty == 1 {
            vec![(EnemyType::Rock, 1u64)]
        } else if difficulty == 2 {
            vec![(EnemyType::Rock, 8u64), (EnemyType::Shooter, 4u64)]
        } else if difficulty == 3 {
            vec![(EnemyType::Rock, 8u64), (EnemyType::Shooter, 8u64)]
        } else if difficulty == 4 {
            vec![(EnemyType::Rock, 4u64), (EnemyType::Shooter, 8u64)]
        } else {
            let rocks: u64 = entropy.range(2, 11) as u64;
            let ghost mid = *entropy;
            let shooters: u64 = entropy.range(2, 11) as u64;
            proof {
                old(entropy).lemma_draw_after(old(entropy), &mid, 0);
                old(entropy).lemma_draw_after(&mid, entropy, 1);
            }
            vec![(EnemyType::Rock, rocks), (EnemyType::Shooter, shooters)]
        }
    }

    /// Plans a round: draws enemies from the weighted bag of the difficulty
    /// until the next one drawn would not fit the budget, gives each a
    /// random spawn time inside the round, and orders them by that time.
    #[verifier::rlimit(50)]
    pub fn create_enemies_and_spawntimes(entropy: &mut Entropy, difficulty: usize, round_duration: i64) -> (queue: VecDeque<(EnemyType, i64)>)
        requires
            difficulty >= 1,
        ensures
            is_round_plan(queue@, difficulty, round_duration),
            is_planned_by(queue@, difficulty, round_duration, *old(entropy)),
            old(entropy).drawn(final(entropy), plan_draws(queue@, difficulty, round_duration)),
    {
        let ghost start = *entropy;
        let ghost from = table_draws(difficulty);
        let weights: Vec<(EnemyType, u64)> = Self::get_enemy_spawn_chance(entropy, difficulty);
        let budget: i64 = Self::get_spending_points_for_difficulty(difficulty);
        let mut points: i64 = budget;
        proof {
            lemma_weights_total(weights@);
        }
        let mut enemybag: Shufflebag<EnemyType> = Shufflebag::new_with_counts(&weights);
        proof {
            lemma_bag_total(enemybag.counts@, weights@, 0);
        }
        let mut enemies: Vec<EnemyType> = Vec::new();
        let mut full: bool = false;
        while points > 0 && !full
            invariant
                0 <= points <= budget,
                enemybag.wf(),
                enemybag.total() > 0,
                kinds_cost(enemies@) + points == budget,
                full ==> points < dearest_cost(difficulty),
                full ==> points > 0,
                weights@ == spawn_weights(difficulty, start.word_after(0), start.word_after(1)),
                from == table_draws(difficulty),
                enemybag.counts@ == crate::shufflebag::fitted_counts(weights@),
                start.drawn(entropy, from + enemies@.len() + if full { 1nat } else { 0nat }),
                !full ==> enemybag.remaining@ == plan_stock(weights@, start, from, enemies@.len()),
                forall|j: int|
                    0 <= j < enemies@.len() ==> #[trigger] enemies@[j] == plan_kind(weights@, start, from, j as nat),
                full ==> cost_spec(plan_kind(weights@, start, from, enemies@.len())) > points,
                difficulty == 1 ==> kinds_cost(enemies@) == enemies@.len(),
                enemies@.len() <= budget - points,
                enemybag.items@.len() == weights@.len(),
                forall|j: int| 0 <= j < weights@.len() ==> enemybag.items@[j] == (#[trigger] weights@[j]).0,
                difficulty == 1 ==> weights@ == seq![(EnemyType::Rock, 1u64)],
                difficulty == 1 ==> forall|j: int| 0 <= j < enemies@.len() ==> #[trigger] enemies@[j] == EnemyType::Rock,
            decreases points + if full { 0int } else { 1int },
        {
            let ghost drawn = crate::shufflebag::drawn_kind(
                enemybag.counts@,
                enemybag.remaining@,
                entropy.upcoming(),
            );
            let ghost kinds = enemybag.items@;
            let ghost before_draw = *entropy;
            let ghost so_far = enemies@.len();
            let enemy: EnemyType = enemybag.get_next(entropy);
            proof {
                start.lemma_draw_after(&before_draw, entropy, from + so_far);
                assert(enemy == kinds[drawn]);
                assert(enemy == weights@[drawn].0);
                assert(enemy == plan_kind(weights@, start, from, so_far));
                assert(enemybag.remaining@ == plan_stock(weights@, start, from, so_far + 1));
                if difficulty == 1 {
                    assert(weights@[0].0 == EnemyType::Rock);
                    assert(kinds[0] == weights@[0].0);
                }
            }
            let cost: i64 = Self::get_spending_cost_for_enemy(enemy);
            if cost > points {
                full = true;
            } else {
                points = points - cost;
                proof {
                    assert(enemies@.push(enemy).drop_last() == enemies@);
                }
                enemies.push(enemy);
            }
        }
        let ghost kinds_done = from + enemies@.len() + if full { 1nat } else { 0nat };
        let mut spawn_times: Vec<i64> = Vec::new();
        let mut i: usize = 0;
        while i < enemies.len()
            invariant
                i <= enemies@.len(),
                spawn_times@.len() == i,
                start.drawn(entropy, kinds_done + if round_duration >= 2 { i as nat } else { 0nat }),
                round_duration >= 2 ==> forall|k: int|
                    0 <= k < i ==> #[trigger] spawn_times@[k] == pick_range(
                        start.word_after((kinds_done + k) as nat),
                        1,
                        (round_duration - 1) as i64,
                    ),
                forall|k: int| 0 <= k < i ==> time_in_round(#[trigger] spawn_times@[k], round_duration),
            decreases enemies@.len() - i,
        {
            let ghost before_draw = *entropy;
            let time: i64 = if round_duration >= 2 {
                entropy.range(1, round_duration - 1)
            } else {
                0
            };
            proof {
                if round_duration >= 2 {
                    start.lemma_draw_after(&before_draw, entropy, kinds_done + i as nat);
                }
            }
            spawn_times.push(time);
            i = i + 1;
        }
        let sorted_times: Vec<i64> = sort_times(&spawn_times);
        proof {
            assert forall|k: int| 0 <= k < sorted_times@.len() implies time_in_round(
                #[trigger] sorted_times@[k],
                round_duration,
            ) by {
                lemma_same_elements(spawn_times@, sorted_times@, k);
                let at = choose|at: int| 0 <= at < spawn_times@.len() && spawn_times@[at] == sorted_times@[k];
                assert(time_in_round(spawn_times@[at], round_duration));
            }
        }
        let mut queue: VecDeque<(EnemyType, i64)> = VecDeque::new();
        let mut k: usize = 0;
        while k < enemies.len()
            invariant
                k <= enemies@.len(),
                enemies@.len() == sorted_times@.len(),
                queue@.len() == k,
                sorted(sorted_times@),
                forall|j: int| 0 <= j < k ==> (#[trigger] queue@[j]).1 == sorted_times@[j],
                forall|j: int| 0 <= j < k ==> (#[trigger] queue@[j]).0 == enemies@[j],
                total_cost(queue@) == kinds_cost(enemies@.take(k as int)),
                difficulty == 1 ==> forall|j: int| 0 <= j < enemies@.len() ==> #[trigger] enemies@[j] == EnemyType::Rock,
            decreases enemies@.len() - k,
        {
            proof {
                assert(enemies@.take(k as int + 1).drop_last() == enemies@.take(k as int));
                assert(queue@.push((enemies@[k as int], sorted_times@[k as int])).drop_last() == queue@);
            }
            queue.push_back((enemies[k], sorted_times[k]));
            k = k + 1;
        }
        assert(enemies@.take(enemies@.len() as int) == enemies@);
        proof {
            assert(total_cost(queue@) == budget - points);
            assert(kind_draws(queue@, difficulty) == kinds_done);
            assert(times_of(queue@) =~= sorted_times@);
            if round_duration >= 2 {
                assert(times_drawn(queue@, difficulty, round_duration, start) =~= spawn_times@);
            }
        }
        queue
    }

    /// A director at the start of the first round: its timers at zero,
    /// the round planned, the resource bag full.
    pub open spec fn is_new(&self) -> bool {
        &&& self.wf()
        &&& self.difficulty == 1
        &&& self.round_duration == ROUND_DURATION
        &&& self.timer_spawn_attack == TriggerRepeating::new_spec(ATTACK_INTERVAL as int)
        &&& self.timer_spawn_resource == TriggerRepeating::new_spec(RESOURCE_INTERVAL as int)
        &&& self.timer_round == TimerSimple::new_started_spec(ROUND_DURATION as int)
        &&& is_round_plan(self.round_enemies_and_spawntimes@, 1, ROUND_DURATION)
        &&& self.resource_bag.counts@ == seq![28u64, 14u64, 58u64]
        &&& self.resource_bag.remaining@ == self.resource_bag.counts@
        &&& self.resource_bag.items@ == seq![ResourceType::Boost, ResourceType::Health, ResourceType::Skillpoint]
    }

    /// A director at the start of the first round, which the next 32
    /// words select: 16 for its rocks and 16 for their spawn times.
    pub fn new(entropy: &mut Entropy) -> (director: Director)
        ensures
            director.is_new(),
            is_planned_by(director.round_enemies_and_spawntimes@, 1, ROUND_DURATION, *old(entropy)),
            old(entropy).drawn(final(entropy), 32),
    {
        let difficulty: usize = 1;
        let round_duration: i64 = ROUND_DURATION;
        let resources: Vec<(ResourceType, u64)> = vec![
            (ResourceType::Boost, 28u64),
            (ResourceType::Health, 14u64),
            (ResourceType::Skillpoint, 58u64),
        ];
        proof {
            lemma_resource_total(resources@);
        }
        let resource_bag: Shufflebag<ResourceType> = Shufflebag::new_with_counts(&resources);
        proof {
            assert(resource_bag.counts@ =~= seq![28u64, 14u64, 58u64]);
            assert(resource_bag.items@ =~= seq![
                ResourceType::Boost,
                ResourceType::Health,
                ResourceType::Skillpoint,
            ]);
            lemma_resource_counts(resource_bag.counts@);
        }
        Director {
            difficulty,
            timer_spawn_attack: TriggerRepeating::new(ATTACK_INTERVAL),
            timer_spawn_resource: TriggerRepeating::new(RESOURCE_INTERVAL),
            timer_round: TimerSimple::new_started(round_duration),
            round_duration,
            round_enemies_and_spawntimes: Self::create_enemies_and_spawntimes(entropy, difficulty, round_duration),
            resource_bag,
        }
    }

    /// What one update makes of the director, and what it says to spawn.
    pub open spec fn updated(before: Director, after: Director, spawn: (Option<EnemyType>, Option<ResourceType>, Option<AttackType>), deltatime: i64) -> bool {
        &&& after.wf()
        &&& after.round_duration == before.round_duration
        &&& after.timer_spawn_attack == before.timer_spawn_attack.stepped(deltatime as int)
        &&& after.timer_spawn_resource == before.timer_spawn_resource.stepped(deltatime as int)
        &&& spawn.2 is Some == before.timer_spawn_attack.fires(deltatime as int)
        &&& spawn.2 is Some ==> spawn.2->0 != AttackType::Neutral
        &&& spawn.1 is Some == before.timer_spawn_resource.fires(deltatime as int)
        &&& spawn.1 is Some ==> before.resource_bag.items@.contains(spawn.1->0)
        &&& after.resource_bag.items@ == before.resource_bag.items@
        &&& after.resource_bag.counts@ == before.resource_bag.counts@
        &&& if spawn.1 is Some {
            drew_resource(before.resource_bag, after.resource_bag, spawn.1->0)
        } else {
            after.resource_bag.remaining@ == before.resource_bag.remaining@
        }
        &&& ({
                let clock = before.timer_round.advanced(deltatime as int);
                let queue = before.round_enemies_and_spawntimes@;
                let due = queue.len() > 0 && queue[0].1 <= clock.time_cur;
                &&& spawn.0 is Some == due
                &&& due ==> spawn.0->0 == queue[0].0
                &&& if clock.finished() {
                    &&& after.difficulty == (if before.difficulty < usize::MAX {
                        before.difficulty + 1
                    } else {
                        before.difficulty as int
                    })
                    &&& after.timer_round == (TimerSimple { time_cur: 0, started: true, ..clock })
                    &&& is_round_plan(
                        after.round_enemies_and_spawntimes@,
                        after.difficulty,
                        after.round_duration,
                    )
                } else {
                    &&& after.difficulty == before.difficulty
                    &&& after.timer_round == clock
                    &&& after.round_enemies_and_spawntimes@ == (if due { queue.drop_first() } else { queue })
                }
            })
    }

    /// The next round was planned by the words that follow the draws for
    /// the pickups of the frame.
    pub open spec fn replanned(before: Director, after: Director, deltatime: i64, e: Entropy, next: Entropy) -> bool {
        exists|mid: Entropy|
            {
                &&& #[trigger] e.drawn(&mid, pickup_draws(before, deltatime))
                &&& is_planned_by(after.round_enemies_and_spawntimes@, after.difficulty, after.round_duration, mid)
                &&& mid.drawn(
                    &next,
                    plan_draws(after.round_enemies_and_spawntimes@, after.difficulty, after.round_duration),
                )
            }
    }

    /// Advances the director by one frame and says what to spawn.
    ///
    /// An attack pickup is due when its trigger fires; it grants one of the
    /// patterns other than the neutral one, which the next word selects. A
    /// resource pickup is due when its trigger fires; its kind comes out of
    /// the resource bag, by the word after that. The next enemy of the
    /// round is due once the round's clock has reached its spawn time.
    /// When the round is over, the difficulty goes up by one and the next
    /// round is planned, which takes further draws.
    #[verifier::rlimit(50)]
    pub fn update_and_spawn_enemies_and_collectibles(&mut self, entropy: &mut Entropy, deltatime: i64) -> (spawn: (
        Option<EnemyType>,
        Option<ResourceType>,
        Option<AttackType>,
    ))
        requires
            old(self).wf(),
        ensures
            Self::updated(*old(self), *final(self), spawn, deltatime),
            spawn.2 is Some ==> spawn.2->0 == AttackType::grantable_spec(old(entropy).word_after(0)),
            spawn.1 is Some ==> drew_resource_by(
                old(self).resource_bag,
                final(self).resource_bag,
                spawn.1->0,
                old(entropy).word_after(if spawn.2 is Some { 1 } else { 0 }),
            ),
            !old(self).timer_round.advanced(deltatime as int).finished() ==> old(entropy).drawn(
                final(entropy),
                pickup_draws(*old(self), deltatime),
            ),
            old(self).timer_round.advanced(deltatime as int).finished() ==> Self::replanned(
                *old(self),
                *final(self),
                deltatime,
                *old(entropy),
                *final(entropy),
            ),
    {
        self.timer_round.update(deltatime);
        let attack_to_spawn: Option<AttackType> = if self.timer_spawn_attack.update_and_check(deltatime) {
            Some(AttackType::grantable(entropy.next_word()))
        } else {
            None
        };
        let ghost after_attack = *entropy;
        proof {
            if attack_to_spawn is Some {
                old(entropy).lemma_draw_after(old(entropy), entropy, 0);
            }
        }
        let ghost bag_before = self.resource_bag;
        let ghost word = entropy.upcoming();
        let resource_to_spawn: Option<ResourceType> = if self.timer_spawn_resource.update_and_check(deltatime) {
            let kind: ResourceType = self.resource_bag.get_next(entropy);
            proof {
                assert(crate::shufflebag::stock_after(bag_before.counts@, bag_before.remaining@, word)
                    == self.resource_bag.remaining@);
                old(entropy).lemma_draw_after(&after_attack, entropy, if attack_to_spawn is Some { 1 } else { 0 });
                assert(drew_resource_by(bag_before, self.resource_bag, kind, word));
                assert(drew_resource(bag_before, self.resource_bag, kind));
                let k = crate::shufflebag::drawn_kind(bag_before.counts@, bag_before.remaining@, word);
                assert(bag_before.items@[k] == kind);
            }
            Some(kind)
        } else {
            None
        };
        let ghost queue = self.round_enemies_and_spawntimes@;
        let enemy_to_spawn: Option<EnemyType> = if self.round_enemies_and_spawntimes.len() > 0 {
            let (enemy, spawn_time): (EnemyType, i64) = self.round_enemies_and_spawntimes[0];
            if spawn_time <= self.timer_round.time_cur {
                self.round_enemies_and_spawntimes.pop_front();
                assert(self.round_enemies_and_spawntimes@ == queue.drop_first());
                assert forall|i: int, j: int|
                    0 <= i <= j < queue.drop_first().len() implies queue.drop_first()[i].1 <= queue.drop_first()[j].1 by {
                    assert(queue.drop_first()[i] == queue[i + 1]);
                    assert(queue.drop_first()[j] == queue[j + 1]);
                }
                Some(enemy)
            } else {
                None
            }
        } else {
            None
        };
        let ghost after_pickups = *entropy;
        if self.timer_round.is_finished() {
            self.timer_round.restart();
            if self.difficulty < usize::MAX {
                self.difficulty = self.difficulty + 1;
            }
            self.round_enemies_and_spawntimes = Self::create_enemies_and_spawntimes(
                entropy,
                self.difficulty,
                self.round_duration,
            );
            assert(old(entropy).drawn(&after_pickups, pickup_draws(*old(self), deltatime)));
        }
        (enemy_to_spawn, resource_to_spawn, attack_to_spawn)
    }
}

/// Enemy weights are small, so their sum fits the machine word.
pub proof fn lemma_weights_total(weights: Seq<(EnemyType, u64)>)
    requires
        1 <= weights.len() <= 2,
        forall|i: int| 0 <= i < weights.len() ==> 1 <= (#[trigger] weights[i]).1 <= 11,
    ensures
        crate::shufflebag::entries_total(weights, 0) <= u64::MAX,
{
    reveal_with_fuel(crate::shufflebag::entries_total, 4);
}

/// A bag that took over all weights holds at least one item.
pub proof fn lemma_bag_total(counts: Seq<u64>, weights: Seq<(EnemyType, u64)>, k: int)
    requires
        counts.len() == weights.len(),
        1 <= weights.len() <= 2,
        forall|i: int| 0 <= i < weights.len() ==> 1 <= (#[trigger] weights[i]).1 <= 11,
        forall|i: int| 0 <= i < weights.len() ==> counts[i] == (#[trigger] weights[i]).1,
    ensures
        sum_from(counts, 0) > 0,
{
    reveal_with_fuel(sum_from, 4);
    assert(counts[0] == weights[0].1);
}

pub proof fn lemma_resource_total(resources: Seq<(ResourceType, u64)>)
    requires
        resources == seq![
            (ResourceType::Boost, 28u64),
            (ResourceType::Health, 14u64),
            (ResourceType::Skillpoint, 58u64),
        ],
    ensures
        crate::shufflebag::entries_total(resources, 0) == 100,
{
    reveal_with_fuel(crate::shufflebag::entries_total, 5);
}

pub proof fn lemma_resource_counts(counts: Seq<u64>)
    requires
        counts == seq![28u64, 14u64, 58u64],
    ensures
        sum_from(counts, 0) == 100,
{
    reveal_with_fuel(sum_from, 5);
}

} // verus!
