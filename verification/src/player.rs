//! The player's ship: pickups, damage, boost, steering and the resource
//! pools behind them.
use vstd::prelude::*;
use crate::attack::{Attack};
use crate::census::{Fact, fact_for, find_fact};
use crate::components::{CollectibleType, EntityId, Motion, Player};
use crate::enemy::{add_score, score_plus};
use crate::fixed::{fx_add, fx_clamp, fx_min, fx_mul, fx_neg, sadd, sclamp, smin, smul, sneg};
use crate::timer::{TimerSimple, TriggerRepeating};
use crate::vec2::{Vec2};

verus! {

/// The keys that steer the ship.
#[derive(Clone, Copy, Debug, PartialEq, Eq, Structural)]
pub struct Keys {
    pub up: bool,
    pub down: bool,
    pub left: bool,
    pub right: bool,
}

/// Damage that touching an enemy does.
pub const CONTACT_DAMAGE: i64 = 30_000_000;

/// Damage from which on a hit makes the ship invincible for a while.
pub const HEAVY_DAMAGE: i64 = 30_000_000;

/// A pool after a gain or a loss: it never leaves the band from nothing to
/// its maximum.
pub open spec fn pool_spec(value: i64, change: i64, max: i64) -> i64 {
    sclamp(sadd(value, change), 0, max)
}

/// Changes a resource pool by `change` and clamps it to `[0, max]`.
pub fn pool_changed(value: i64, change: i64, max: i64) -> (r: i64)
    ensures
        r == pool_spec(value, change, max),
        max >= 0 ==> 0 <= r <= max,
{
    fx_clamp(fx_add(value, change), 0, max)
}

/// Whatever a pool held and however much it changes, it ends up between
/// nothing and its maximum; and a pool that is within bounds is not moved
/// by clamping it again.
pub proof fn lemma_pool_stays_in_bounds(value: i64, change: i64, max: i64)
    requires
        max >= 0,
    ensures
        0 <= pool_spec(value, change, max) <= max,
        sclamp(pool_spec(value, change, max), 0, max) == pool_spec(value, change, max),
{
}

/// The score for picking up a collectible.
pub open spec fn pickup_score(kind: CollectibleType) -> usize {
    match kind {
        CollectibleType::Boost => 150,
        CollectibleType::Ammo => 50,
        CollectibleType::Hp => 100,
        CollectibleType::Skillpoint => 250,
        CollectibleType::Attack(_) => 500,
    }
}

/// The player after picking up one collectible: boost, ammunition and
/// health grow by their gain; a boost pickup that fills the pool past half
/// ends the boost lockout; an attack pickup refills the ammunition and
/// switches the pattern.
pub open spec fn picked(p: Player, kind: CollectibleType) -> Player {
    match kind {
        CollectibleType::Boost => {
            let boost = pool_spec(p.boost, p.boost_gain, p.boost_max);
            if boost * 2 > p.boost_max {
                Player {
                    boost,
                    boost_allowed: true,
                    boost_cooldown_timer: TimerSimple { time_cur: 0, started: false, ..p.boost_cooldown_timer },
                    ..p
                }
            } else {
                Player { boost, ..p }
            }
        },
        CollectibleType::Ammo => Player { ammo: pool_spec(p.ammo, p.ammo_gain, p.ammo_max), ..p },
        CollectibleType::Hp => Player { hp: pool_spec(p.hp, p.hp_gain, p.hp_max), ..p },
        CollectibleType::Skillpoint => p,
        CollectibleType::Attack(attacktype) => Player {
            ammo: if p.ammo_max < 0 { 0 } else { p.ammo_max },
            attack: attacktype.attack_spec(),
            reload_timer: TriggerRepeating::new_spec(attacktype.attack_spec().reload_time as int),
            ..p
        },
    }
}

/// The collectible that entity `id` is, if it is one.
pub open spec fn collectible_at(facts: Seq<Fact>, id: EntityId) -> Option<CollectibleType> {
    match fact_for(facts, id) {
        Some(fact) => match fact.collectible {
            Some(collectible) => Some(collectible.collectible),
            None => None,
        },
        None => None,
    }
}

/// The player after picking up every collectible among `collisions`.
pub open spec fn after_pickups(p: Player, collisions: Seq<EntityId>, facts: Seq<Fact>) -> Player
    decreases collisions.len(),
{
    if collisions.len() == 0 {
        p
    } else {
        let before = after_pickups(p, collisions.drop_last(), facts);
        match collectible_at(facts, collisions.last()) {
            Some(kind) => picked(before, kind),
            None => before,
        }
    }
}

/// The score for every collectible among `collisions`.
pub open spec fn pickups_score(collisions: Seq<EntityId>, facts: Seq<Fact>) -> usize
    decreases collisions.len(),
{
    if collisions.len() == 0 {
        0
    } else {
        let before = pickups_score(collisions.drop_last(), facts);
        match collectible_at(facts, collisions.last()) {
            Some(kind) => score_plus(before, pickup_score(kind)),
            None => before,
        }
    }
}

/// How many skill points are among `collisions`.
pub open spec fn skillpoints_picked(collisions: Seq<EntityId>, facts: Seq<Fact>) -> usize
    decreases collisions.len(),
{
    if collisions.len() == 0 {
        0
    } else {
        let before = skillpoints_picked(collisions.drop_last(), facts);
        if collectible_at(facts, collisions.last()) == Some(CollectibleType::Skillpoint) {
            score_plus(before, 1)
        } else {
            before
        }
    }
}

/// Picks up one collectible.
pub fn pick_up(player: &mut Player, kind: CollectibleType)
    ensures
        *final(player) == picked(*old(player), kind),
        old(player).pools_in_bounds() ==> final(player).pools_in_bounds(),
{
    match kind {
        CollectibleType::Boost => {
            player.boost = pool_changed(player.boost, player.boost_gain, player.boost_max);
            if (player.boost as i128) * 2 > player.boost_max as i128 {
                player.boost_allowed = true;
                player.boost_cooldown_timer.stop();
            }
        },
        CollectibleType::Ammo => {
            player.ammo = pool_changed(player.ammo, player.ammo_gain, player.ammo_max);
        },
        CollectibleType::Hp => {
            player.hp = pool_changed(player.hp, player.hp_gain, player.hp_max);
        },
        CollectibleType::Skillpoint => {},
        CollectibleType::Attack(attacktype) => {
            player.ammo = if player.ammo_max < 0 { 0 } else { player.ammo_max };
            player.attack = attacktype.attack();
            player.reload_timer = TriggerRepeating::new(player.attack.reload_time);
        },
    }
}

/// Picks up every collectible that the player touches. Returns the score
/// and the skill points gained.
pub fn resolve_pickups(player: &mut Player, collisions: &Vec<EntityId>, facts: &Vec<Fact>) -> (gain: (usize, usize))
    ensures
        *final(player) == after_pickups(*old(player), collisions@, facts@),
        gain.0 == pickups_score(collisions@, facts@),
        gain.1 == skillpoints_picked(collisions@, facts@),
        old(player).pools_in_bounds() ==> final(player).pools_in_bounds(),
{
    let mut score: usize = 0;
    let mut skillpoints: usize = 0;
    let mut k: usize = 0;
    assert(collisions@.take(0) == Seq::<EntityId>::empty());
    while k < collisions.len()
        invariant
            k <= collisions@.len(),
            *player == after_pickups(*old(player), collisions@.take(k as int), facts@),
            score == pickups_score(collisions@.take(k as int), facts@),
            skillpoints == skillpoints_picked(collisions@.take(k as int), facts@),
            old(player).pools_in_bounds() ==> player.pools_in_bounds(),
        decreases collisions@.len() - k,
    {
        assert(collisions@.take(k as int + 1).drop_last() == collisions@.take(k as int));
        match find_fact(facts, collisions[k]) {
            Some(fact) => match fact.collectible {
                Some(collectible) => {
                    pick_up(player, collectible.collectible);
                    score = add_score(
                        score,
                        match collectible.collectible {
                            CollectibleType::Boost => 150,
                            CollectibleType::Ammo => 50,
                            CollectibleType::Hp => 100,
                            CollectibleType::Skillpoint => 250,
                            CollectibleType::Attack(_) => 500,
                        },
                    );
                    match collectible.collectible {
                        CollectibleType::Skillpoint => {
                            skillpoints = add_score(skillpoints, 1);
                        },
                        _ => {},
                    }
                },
                None => {},
            },
            None => {},
        }
        k = k + 1;
    }
    assert(collisions@.take(collisions@.len() as int) == collisions@);
    (score, skillpoints)
}

/// The damage that one touched entity does to a ship that is not
/// invincible: a fixed amount for an enemy, its own for a shot.
pub open spec fn damage_of(facts: Seq<Fact>, id: EntityId) -> i64 {
    match fact_for(facts, id) {
        Some(fact) => {
            let by_contact: i64 = if fact.is_enemy { CONTACT_DAMAGE } else { 0 };
            match fact.projectile {
                Some(projectile) => sadd(by_contact, projectile.damage),
                None => by_contact,
            }
        },
        None => 0,
    }
}

/// The damage that the touched entities do together. An invincible ship
/// takes none.
pub open spec fn contact_damage(invincible: bool, collisions: Seq<EntityId>, facts: Seq<Fact>) -> i64
    decreases collisions.len(),
{
    if collisions.len() == 0 || invincible {
        0
    } else {
        sadd(contact_damage(invincible, collisions.drop_last(), facts), damage_of(facts, collisions.last()))
    }
}

/// Nothing among `collisions` does negative damage.
pub open spec fn none_heals(collisions: Seq<EntityId>, facts: Seq<Fact>) -> bool {
    forall|k: int| 0 <= k < collisions.len() ==> damage_of(facts, #[trigger] collisions[k]) >= 0
}

/// Where nothing does negative damage, the damage of all together is not
/// negative.
pub proof fn lemma_contact_damage_not_negative(invincible: bool, collisions: Seq<EntityId>, facts: Seq<Fact>)
    requires
        none_heals(collisions, facts),
    ensures
        contact_damage(invincible, collisions, facts) >= 0,
    decreases collisions.len(),
{
    if collisions.len() > 0 && !invincible {
        let head = collisions.drop_last();
        assert forall|k: int| 0 <= k < head.len() implies damage_of(facts, #[trigger] head[k]) >= 0 by {
            assert(head[k] == collisions[k]);
        }
        lemma_contact_damage_not_negative(invincible, head, facts);
        assert(damage_of(facts, collisions[collisions.len() - 1]) >= 0);
    }
}

/// Nothing among `collisions` does any damage.
pub open spec fn none_hurts(collisions: Seq<EntityId>, facts: Seq<Fact>) -> bool {
    forall|k: int| 0 <= k < collisions.len() ==> damage_of(facts, #[trigger] collisions[k]) == 0
}

/// Where nothing does any damage, there is no damage.
pub proof fn lemma_no_contact_damage(invincible: bool, collisions: Seq<EntityId>, facts: Seq<Fact>)
    requires
        none_hurts(collisions, facts),
    ensures
        contact_damage(invincible, collisions, facts) == 0,
    decreases collisions.len(),
{
    if collisions.len() > 0 && !invincible {
        let head = collisions.drop_last();
        assert forall|k: int| 0 <= k < head.len() implies damage_of(facts, #[trigger] head[k]) == 0 by {
            assert(head[k] == collisions[k]);
        }
        lemma_no_contact_damage(invincible, head, facts);
        assert(damage_of(facts, collisions[collisions.len() - 1]) == 0);
    }
}

/// Picking up at a full pool is no change to it: hit points at their
/// maximum stay there, and so does ammunition.
pub proof fn lemma_pickups_keep_full(p: Player, collisions: Seq<EntityId>, facts: Seq<Fact>)
    ensures
        after_pickups(p, collisions, facts).hp_gain == p.hp_gain,
        after_pickups(p, collisions, facts).ammo_gain == p.ammo_gain,
        after_pickups(p, collisions, facts).hp_max == p.hp_max,
        after_pickups(p, collisions, facts).ammo_max == p.ammo_max,
        p.hp == p.hp_max && p.hp_max >= 0 && p.hp_gain >= 0 ==> after_pickups(p, collisions, facts).hp == p.hp_max,
        p.ammo == p.ammo_max && p.ammo_max >= 0 && p.ammo_gain >= 0 ==> after_pickups(p, collisions, facts).ammo
            == p.ammo_max,
    decreases collisions.len(),
{
    if collisions.len() > 0 {
        lemma_pickups_keep_full(p, collisions.drop_last(), facts);
    }
}

/// None of `collisions` is a collectible.
pub open spec fn none_collected(collisions: Seq<EntityId>, facts: Seq<Fact>) -> bool {
    forall|k: int| 0 <= k < collisions.len() ==> collectible_at(facts, #[trigger] collisions[k]) is None
}

/// Where nothing is picked up, the ship stays as it is.
pub proof fn lemma_nothing_picked(p: Player, collisions: Seq<EntityId>, facts: Seq<Fact>)
    requires
        none_collected(collisions, facts),
    ensures
        after_pickups(p, collisions, facts) == p,
    decreases collisions.len(),
{
    if collisions.len() > 0 {
        let head = collisions.drop_last();
        assert forall|k: int| 0 <= k < head.len() implies collectible_at(facts, #[trigger] head[k]) is None by {
            assert(head[k] == collisions[k]);
        }
        lemma_nothing_picked(p, head, facts);
        assert(collectible_at(facts, collisions[collisions.len() - 1]) is None);
    }
}

/// Pickups leave every pool within its bounds.
pub proof fn lemma_pickups_keep_bounds(p: Player, collisions: Seq<EntityId>, facts: Seq<Fact>)
    requires
        p.pools_in_bounds(),
    ensures
        after_pickups(p, collisions, facts).pools_in_bounds(),
    decreases collisions.len(),
{
    if collisions.len() > 0 {
        lemma_pickups_keep_bounds(p, collisions.drop_last(), facts);
    }
}

pub fn sum_contact_damage(invincible: bool, collisions: &Vec<EntityId>, facts: &Vec<Fact>) -> (damage: i64)
    ensures
        damage == contact_damage(invincible, collisions@, facts@),
{
    if invincible {
        return 0;
    }
    let mut damage: i64 = 0;
    let mut k: usize = 0;
    assert(collisions@.take(0) == Seq::<EntityId>::empty());
    while k < collisions.len()
        invariant
            k <= collisions@.len(),
            !invincible,
            damage == contact_damage(invincible, collisions@.take(k as int), facts@),
        decreases collisions@.len() - k,
    {
        assert(collisions@.take(k as int + 1).drop_last() == collisions@.take(k as int));
        let hit: i64 = match find_fact(facts, collisions[k]) {
            Some(fact) => {
                let by_contact: i64 = if fact.is_enemy { CONTACT_DAMAGE } else { 0 };
                match fact.projectile {
                    Some(projectile) => fx_add(by_contact, projectile.damage),
                    None => by_contact,
                }
            },
            None => 0,
        };
        damage = fx_add(damage, hit);
        k = k + 1;
    }
    assert(collisions@.take(collisions@.len() as int) == collisions@);
    damage
}

/// Whether the boost is in use: it is allowed and a boost key is down.
pub open spec fn boost_active(p: Player, keys: Keys) -> bool {
    p.boost_allowed && (keys.up || keys.down)
}

/// The player after the boost step. While boost is allowed, the up key
/// raises the top speed by half and the down key halves it, and either
/// drains the pool; otherwise the pool refills. A pool drained to nothing
/// locks the boost and starts the lockout clock; the lockout lasts until
/// the pool has refilled past half.
pub open spec fn boosted(p: Player, keys: Keys, dt: i64) -> Player {
    let active = boost_active(p, keys);
    let speed_max = if p.boost_allowed && keys.down {
        smul(500_000, p.speed_base_max)
    } else if p.boost_allowed && keys.up {
        smul(1_500_000, p.speed_base_max)
    } else {
        p.speed_base_max
    };
    let clock = if p.boost_allowed { p.boost_cooldown_timer } else { p.boost_cooldown_timer.advanced(dt as int) };
    let boost = if active {
        pool_spec(p.boost, sneg(smul(50_000_000, dt)), p.boost_max)
    } else {
        pool_spec(p.boost, smul(10_000_000, dt), p.boost_max)
    };
    if boost == 0 {
        Player {
            speed_max,
            boost,
            boost_allowed: false,
            boost_cooldown_timer: TimerSimple::new_started_spec(p.boost_cooldown_time as int),
            ..p
        }
    } else if !p.boost_allowed && boost * 2 > p.boost_max {
        Player {
            speed_max,
            boost,
            boost_allowed: true,
            boost_cooldown_timer: TimerSimple { time_cur: 0, started: false, ..clock },
            ..p
        }
    } else {
        Player { speed_max, boost, boost_cooldown_timer: clock, ..p }
    }
}

pub fn boost_step(player: &mut Player, keys: &Keys, deltatime: i64) -> (active: bool)
    ensures
        active == boost_active(*old(player), *keys),
        *final(player) == boosted(*old(player), *keys, deltatime),
        old(player).pools_in_bounds() ==> final(player).pools_in_bounds(),
{
    let mut active: bool = false;
    let locked: bool = !player.boost_allowed;
    player.speed_max = player.speed_base_max;
    if player.boost_allowed {
        if keys.up {
            player.speed_max = fx_mul(1_500_000, player.speed_base_max);
            active = true;
        }
        if keys.down {
            player.speed_max = fx_mul(500_000, player.speed_base_max);
            active = true;
        }
    } else {
        player.boost_cooldown_timer.update(deltatime);
    }
    if active {
        player.boost = pool_changed(player.boost, fx_neg(fx_mul(50_000_000, deltatime)), player.boost_max);
    } else {
        player.boost = pool_changed(player.boost, fx_mul(10_000_000, deltatime), player.boost_max);
    }
    if player.boost == 0 {
        player.boost_allowed = false;
        player.boost_cooldown_timer = TimerSimple::new_started(player.boost_cooldown_time);
    } else if locked && (player.boost as i128) * 2 > player.boost_max as i128 {
        player.boost_allowed = true;
        player.boost_cooldown_timer.stop();
    }
    active
}

/// The speed after accelerating for `dt`, capped by the top speed.
pub open spec fn sped_up(p: Player, dt: i64) -> i64 {
    smin(sadd(p.speed, smul(p.acc, dt)), p.speed_max)
}

/// The motion that the keys and the speed give the ship.
pub open spec fn steered_motion(m: Motion, turn_speed: i64, speed: i64, dir_angle: i64, keys: Keys) -> Motion {
    Motion {
        vel: Vec2::from_angle_spec(dir_angle).scaled_spec(speed),
        dir_angle_vel: if keys.right {
            sneg(turn_speed)
        } else if keys.left {
            turn_speed
        } else {
            0
        },
        ..m
    }
}

/// Turns by the keys and accelerates along the facing.
pub fn steer_step(player: &mut Player, motion: &mut Motion, dir_angle: i64, keys: &Keys, deltatime: i64)
    ensures
        *final(player) == (Player { speed: sped_up(*old(player), deltatime), ..*old(player) }),
        *final(motion) == steered_motion(*old(motion), old(player).turn_speed, final(player).speed, dir_angle, *keys),
{
    motion.dir_angle_vel = 0;
    if keys.left {
        motion.dir_angle_vel = player.turn_speed;
    }
    if keys.right {
        motion.dir_angle_vel = fx_neg(player.turn_speed);
    }
    player.speed = fx_min(fx_add(player.speed, fx_mul(player.acc, deltatime)), player.speed_max);
    motion.vel = Vec2::from_angle_flipped_y(dir_angle).scaled(player.speed);
}

/// Whether a ship that is invincible is shown at this moment: it flickers
/// in steps of a 25th of a second.
pub open spec fn flicker_visible(timer: TimerSimple) -> bool {
    if timer.running() && timer.time_cur >= 0 {
        (timer.time_cur / 40_000) % 2 != 0
    } else {
        true
    }
}

pub fn flicker(timer: &TimerSimple) -> (visible: bool)
    ensures
        visible == flicker_visible(*timer),
{
    if timer.is_running() && timer.time_cur >= 0 {
        (timer.time_cur / 40_000) % 2 != 0
    } else {
        true
    }
}

/// What the damage of a frame amounts to.
#[derive(Clone, Copy, Debug, PartialEq, Eq, Structural)]
pub enum Severity {
    /// The ship is destroyed.
    Fatal,
    /// The damage reaches the heavy mark.
    Heavy,
    Light,
}

/// How the game answers to damage: screen shake, slow motion, a flash and
/// a burst of particles, all growing with the severity.
#[derive(Clone, Copy, Debug, PartialEq, Eq, Structural)]
pub struct DamageResponse {
    pub severity: Severity,
    pub screenshake_amplitude: i64,
    pub screenshake_duration: i64,
    pub screenshake_frequency: i64,
    pub slowmotion_duration: i64,
    pub slowmotion_factor: i64,
    pub particle_count_min: i64,
    pub particle_count_max: i64,
    pub screenflash_framecount: usize,
}

pub open spec fn severity_of(hp_left: i64, damage: i64) -> Severity {
    if hp_left == 0 {
        Severity::Fatal
    } else if damage >= HEAVY_DAMAGE {
        Severity::Heavy
    } else {
        Severity::Light
    }
}

pub open spec fn response_spec(severity: Severity) -> DamageResponse {
    match severity {
        Severity::Fatal => DamageResponse {
            severity,
            screenshake_amplitude: 6_000_000,
            screenshake_duration: 200_000,
            screenshake_frequency: 80_000_000,
            slowmotion_duration: 1_000_000,
            slowmotion_factor: 150_000,
            particle_count_min: 16,
            particle_count_max: 32,
            screenflash_framecount: 4,
        },
        Severity::Heavy => DamageResponse {
            severity,
            screenshake_amplitude: 6_000_000,
            screenshake_duration: 200_000,
            screenshake_frequency: 80_000_000,
            slowmotion_duration: 500_000,
            slowmotion_factor: 250_000,
            particle_count_min: 8,
            particle_count_max: 16,
            screenflash_framecount: 3,
        },
        Severity::Light => DamageResponse {
            severity,
            screenshake_amplitude: 6_000_000,
            screenshake_duration: 100_000,
            screenshake_frequency: 80_000_000,
            slowmotion_duration: 250_000,
            slowmotion_factor: 750_000,
            particle_count_min: 4,
            particle_count_max: 8,
            screenflash_framecount: 2,
        },
    }
}

pub fn response_for(hp_left: i64, damage: i64) -> (r: DamageResponse)
    ensures
        r == response_spec(severity_of(hp_left, damage)),
{
    if hp_left == 0 {
        DamageResponse {
            severity: Severity::Fatal,
            screenshake_amplitude: 6_000_000,
            screenshake_duration: 200_000,
            screenshake_frequency: 80_000_000,
            slowmotion_duration: 1_000_000,
            slowmotion_factor: 150_000,
            particle_count_min: 16,
            particle_count_max: 32,
            screenflash_framecount: 4,
        }
    } else if damage >= HEAVY_DAMAGE {
        DamageResponse {
            severity: Severity::Heavy,
            screenshake_amplitude: 6_000_000,
            screenshake_duration: 200_000,
            screenshake_frequency: 80_000_000,
            slowmotion_duration: 500_000,
            slowmotion_factor: 250_000,
            particle_count_min: 8,
            particle_count_max: 16,
            screenflash_framecount: 3,
        }
    } else {
        DamageResponse {
            severity: Severity::Light,
            screenshake_amplitude: 6_000_000,
            screenshake_duration: 100_000,
            screenshake_frequency: 80_000_000,
            slowmotion_duration: 250_000,
            slowmotion_factor: 750_000,
            particle_count_min: 4,
            particle_count_max: 8,
            screenflash_framecount: 2,
        }
    }
}

/// The player after taking `damage`: the hit points go down, and a heavy
/// hit that the ship survives makes it invincible for a while.
pub open spec fn damaged(p: Player, damage: i64) -> Player {
    if damage > 0 {
        let hp = pool_spec(p.hp, sneg(damage), p.hp_max);
        Player {
            hp,
            invincible_timer: if hp != 0 && damage >= HEAVY_DAMAGE {
                TimerSimple { time_cur: 0, started: true, ..p.invincible_timer }
            } else {
                p.invincible_timer
            },
            ..p
        }
    } else {
        p
    }
}

/// Applies the damage of a frame. Returns how the game answers, if there
/// was any damage.
pub fn take_damage(player: &mut Player, damage: i64) -> (response: Option<DamageResponse>)
    ensures
        *final(player) == damaged(*old(player), damage),
        response == (if damage > 0 {
            Some(response_spec(severity_of(final(player).hp, damage)))
        } else {
            None
        }),
        old(player).pools_in_bounds() ==> final(player).pools_in_bounds(),
{
    if damage > 0 {
        player.hp = pool_changed(player.hp, fx_neg(damage), player.hp_max);
        if player.hp != 0 && damage >= HEAVY_DAMAGE {
            player.invincible_timer.restart();
        }
        Some(response_for(player.hp, damage))
    } else {
        None
    }
}

/// A ship that touches one collectible, and nothing else, picks it up: it
/// changes as `picked` says, which for health, ammunition and boost is a
/// gain clamped to the maximum of the pool.
pub proof fn lemma_single_pickup(p: Player, id: EntityId, kind: CollectibleType, facts: Seq<Fact>)
    requires
        collectible_at(facts, id) == Some(kind),
    ensures
        after_pickups(p, seq![id], facts) == picked(p, kind),
        kind == CollectibleType::Hp ==> after_pickups(p, seq![id], facts).hp == sclamp(
            sadd(p.hp, p.hp_gain),
            0,
            p.hp_max,
        ),
        kind == CollectibleType::Ammo ==> after_pickups(p, seq![id], facts).ammo == sclamp(
            sadd(p.ammo, p.ammo_gain),
            0,
            p.ammo_max,
        ),
        kind == CollectibleType::Boost ==> after_pickups(p, seq![id], facts).boost == sclamp(
            sadd(p.boost, p.boost_gain),
            0,
            p.boost_max,
        ),
        pickups_score(seq![id], facts) == pickup_score(kind),
{
    let one = seq![id];
    assert(one.drop_last() =~= Seq::<EntityId>::empty());
    assert(one.last() == id);
    assert(after_pickups(p, one.drop_last(), facts) == p);
    assert(pickups_score(one.drop_last(), facts) == 0);
}

} // verus!
