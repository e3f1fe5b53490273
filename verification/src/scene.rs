//! The stage: it owns the entity store and the director, and runs one
//! frame at a time in a fixed order.
use vstd::prelude::*;
use crate::archetypes::Archetypes;
use crate::attack::{AttackType, ShipType};
use crate::commands::{Command, WorldCommandBuffer, after_commands, spawn_count};
use crate::components::{Components, EntityId};
use crate::director::{Director, EnemyType, ResourceType};
use crate::enemy::{StageCtx, add_score, enemies_in_bounds, random_offset, score_plus};
use crate::fixed::{UNIT, fx_add, fx_lerp, fx_mul, fx_sub, sadd, slerp, smul, ssub};
use crate::frame::{FrameOutcome, early_simulated, late_simulated, run_early_passes, run_late_passes};
use crate::infotext::FontMetrics;
use crate::player::{DamageResponse, Keys};
use crate::random::{Entropy, pick_below, pick_range};
use crate::skill::Skill;
use crate::store::{Row, Store, is_snapshot, written};
use crate::timer::TimerSimple;
use crate::trig::FULL_TURN;
use crate::vec2::Vec2;

verus! {

/// Slows the clock of the game for a while and lets it run up to its
/// normal pace again.
#[derive(Clone, Copy, Debug, PartialEq, Eq, Structural)]
pub struct SlowmotionModulator {
    /// Pace at the start of the slow motion, as a share of the normal one.
    pub factor: i64,
    pub timer: TimerSimple,
}

impl SlowmotionModulator {
    pub open spec fn new_spec() -> SlowmotionModulator {
        SlowmotionModulator { factor: UNIT, timer: TimerSimple::new_stopped_spec(1_000_000) }
    }

    /// A slow motion that starts now. It takes the place of any that was
    /// under way.
    pub open spec fn started_spec(duration: i64, factor: i64) -> SlowmotionModulator {
        SlowmotionModulator { factor, timer: TimerSimple::new_started_spec(duration as int) }
    }

    /// The modulator after `dt` seconds of real time.
    pub open spec fn advanced(self, dt: i64) -> SlowmotionModulator {
        SlowmotionModulator { timer: self.timer.advanced(dt as int), ..self }
    }

    /// The time that passes in the game while `dt` passes for real: the
    /// pace rises from the factor to the normal pace over the duration.
    pub open spec fn slowed(self, dt: i64) -> i64 {
        smul(slerp(self.factor, UNIT, self.advanced(dt).timer.ratio() as i64), dt)
    }

    pub fn new() -> (s: SlowmotionModulator)
        ensures
            s == Self::new_spec(),
    {
        SlowmotionModulator { factor: UNIT, timer: TimerSimple::new_stopped(1_000_000) }
    }

    pub fn add_slowmotion(&mut self, duration: i64, factor: i64)
        ensures
            *final(self) == Self::started_spec(duration, factor),
    {
        self.timer = TimerSimple::new_started(duration);
        self.factor = factor;
    }

    #[must_use]
    pub fn update_and_get_new_deltatime(&mut self, deltatime: i64) -> (slowed: i64)
        ensures
            *final(self) == old(self).advanced(deltatime),
            slowed == old(self).slowed(deltatime),
    {
        self.timer.update(deltatime);
        let percentage: i64 = self.timer.completion_ratio();
        let factor: i64 = fx_lerp(self.factor, UNIT, percentage);
        fx_mul(factor, deltatime)
    }
}

/// A shake of the screen for the host's camera.
#[derive(Clone, Copy, Debug, PartialEq, Eq, Structural)]
pub struct ScreenShake {
    pub amplitude: i64,
    pub duration: i64,
    pub frequency: i64,
}

/// What the host hands in for a frame.
#[derive(Clone, Copy, Debug, PartialEq, Eq, Structural)]
pub struct FrameInput {
    /// Seconds since the last frame.
    pub deltatime: i64,
    pub canvas_width: i64,
    pub canvas_height: i64,
    pub keys: Keys,
    /// Whether the key that spawns ammunition is down.
    pub spawn_ammo: bool,
    /// Whether any key was pressed in this frame.
    pub any_key_pressed: bool,
    pub font: FontMetrics,
}

/// What a frame hands back to the host.
#[derive(Debug)]
pub struct FrameOutput {
    /// The round is over and a key asks for a new one.
    pub restart: bool,
    /// A shake to add to the camera.
    pub shake: Option<ScreenShake>,
    /// The entities as the frame's passes left them: what is to be drawn.
    pub frame: Vec<Row>,
}

/// Distance of the spawn lanes from the edge of the canvas, and of the
/// spawn points from its upper and lower edge.
pub const LANE_MARGIN: i64 = 10_000_000;

/// A place just outside the canvas and a velocity that leads into it: on
/// the left going right or on the right going left, at 20 to 40 units per
/// second.
pub open spec fn is_lane(pos: Vec2, vel: Vec2, canvas_width: i64, canvas_height: i64) -> bool {
    &&& vel.y == 0
    &&& if vel.x > 0 {
        pos.x == -LANE_MARGIN && 20_000_000 <= vel.x <= 40_000_000
    } else {
        pos.x == sadd(canvas_width, LANE_MARGIN) && -40_000_000 <= vel.x <= -20_000_000
    }
    &&& ssub(canvas_height, LANE_MARGIN) >= LANE_MARGIN ==> LANE_MARGIN <= pos.y <= ssub(canvas_height, LANE_MARGIN)
}

/// The lane that three words select: the first the side, the second the
/// height, the third the speed.
pub open spec fn lane_picked(side: u64, height: u64, speed: u64, canvas_width: i64, canvas_height: i64) -> (Vec2, Vec2) {
    let y = pick_range(height, LANE_MARGIN, ssub(canvas_height, LANE_MARGIN));
    let v = pick_range(speed, 20_000_000, 40_000_000);
    if pick_below(side, 2) == 1 {
        (Vec2 { x: sadd(canvas_width, LANE_MARGIN), y }, Vec2 { x: (-v) as i64, y: 0 })
    } else {
        (Vec2 { x: (-LANE_MARGIN) as i64, y }, Vec2 { x: v, y: 0 })
    }
}

/// Picks a lane for something that enters the canvas from the side. It
/// takes three draws: for the side, for the height and for the speed.
pub fn create_spawn_pos_vel(entropy: &mut Entropy, canvas_width: i64, canvas_height: i64) -> (lane: (Vec2, Vec2))
    ensures
        lane == lane_picked(
            old(entropy).word_after(0),
            old(entropy).word_after(1),
            old(entropy).word_after(2),
            canvas_width,
            canvas_height,
        ),
        old(entropy).drawn(final(entropy), 3),
        is_lane(lane.0, lane.1, canvas_width, canvas_height),
{
    let from_right: bool = entropy.below(2) == 1;
    let ghost first = *entropy;
    let y: i64 = entropy.range(LANE_MARGIN, fx_sub(canvas_height, LANE_MARGIN));
    let ghost second = *entropy;
    let speed: i64 = entropy.range(20_000_000, 40_000_000);
    proof {
        old(entropy).lemma_draw_after(old(entropy), &first, 0);
        old(entropy).lemma_draw_after(&first, &second, 1);
        old(entropy).lemma_draw_after(&second, entropy, 2);
    }
    if from_right {
        (Vec2 { x: fx_add(canvas_width, LANE_MARGIN), y }, Vec2 { x: -speed, y: 0 })
    } else {
        (Vec2 { x: -LANE_MARGIN, y }, Vec2 { x: speed, y: 0 })
    }
}

/// What the director decided to spawn in a frame and the entities that
/// came of it.
#[derive(Clone, Copy, Debug, PartialEq, Eq)]
pub struct SpawnReport {
    pub decided: (Option<EnemyType>, Option<ResourceType>, Option<AttackType>),
    pub enemy: Option<EntityId>,
    pub resource: Option<EntityId>,
    pub attack: Option<EntityId>,
    pub ammo: Option<EntityId>,
}

/// The record is an enemy of the given kind on a lane.
pub open spec fn is_enemy_of(c: Components, kind: EnemyType, canvas_width: i64, canvas_height: i64) -> bool {
    exists|pos: Vec2, vel: Vec2|
        #![trigger is_lane(pos, vel, canvas_width, canvas_height)]
        is_lane(pos, vel, canvas_width, canvas_height) && match kind {
            EnemyType::Rock => Archetypes::is_enemy_rock(c, pos, vel, 8_000_000),
            EnemyType::Shooter => Archetypes::is_enemy_shooter(c, pos, vel),
        }
}

/// The record is a pickup of the given resource on a lane, with a random
/// facing and spin where the kind has them.
pub open spec fn is_resource_of(c: Components, kind: ResourceType, canvas_width: i64, canvas_height: i64) -> bool {
    exists|pos: Vec2, vel: Vec2, dir_angle: i64, dir_angle_vel: i64|
        #![trigger is_resource_at(c, kind, pos, vel, dir_angle, dir_angle_vel)]
        is_lane(pos, vel, canvas_width, canvas_height) && 0 <= dir_angle <= FULL_TURN && -FULL_TURN
            <= dir_angle_vel <= FULL_TURN && is_resource_at(c, kind, pos, vel, dir_angle, dir_angle_vel)
}

/// The record is the pickup of the given resource as its archetype makes
/// it at `pos` with velocity `vel`.
pub open spec fn is_resource_at(
    c: Components,
    kind: ResourceType,
    pos: Vec2,
    vel: Vec2,
    dir_angle: i64,
    dir_angle_vel: i64,
) -> bool {
    match kind {
        ResourceType::Boost => Archetypes::is_core_collectible(
            c,
            pos,
            vel,
            dir_angle,
            dir_angle_vel,
            crate::components::CollectibleType::Boost,
            crate::color::color_boost(),
        ),
        ResourceType::Skillpoint => Archetypes::is_core_collectible(
            c,
            pos,
            vel,
            dir_angle,
            dir_angle_vel,
            crate::components::CollectibleType::Skillpoint,
            crate::color::color_skill_point(),
        ),
        ResourceType::Health => Archetypes::is_hp_collectible(c, pos, vel),
    }
}

/// The record is a pickup of the given attack pattern on a lane.
pub open spec fn is_attack_of(c: Components, kind: AttackType, canvas_width: i64, canvas_height: i64) -> bool {
    exists|pos: Vec2, vel: Vec2|
        #![trigger is_lane(pos, vel, canvas_width, canvas_height)]
        is_lane(pos, vel, canvas_width, canvas_height) && Archetypes::is_attack_collectible(c, pos, vel, kind)
}

/// The record is ammunition somewhere on the canvas that homes in on
/// `player`.
pub open spec fn is_ammo_for(c: Components, player: EntityId, canvas_width: i64, canvas_height: i64) -> bool {
    exists|pos: Vec2, vel: Vec2, dir_angle: i64, dir_angle_vel: i64|
        {
            &&& canvas_width >= 0 ==> 0 <= pos.x <= canvas_width
            &&& canvas_height >= 0 ==> 0 <= pos.y <= canvas_height
            &&& crate::enemy::within(vel, 20_000_000)
            &&& 0 <= dir_angle <= FULL_TURN
            &&& -FULL_TURN <= dir_angle_vel <= FULL_TURN
            &&& #[trigger] Archetypes::is_ammo_collectible(c, pos, vel, dir_angle, dir_angle_vel, player)
        }
}

/// One spawn: if `id` names an entity, the store has gained it and
/// nothing else, and its identity is new.
pub open spec fn one_spawned(before: Map<u64, Components>, after: Map<u64, Components>, issued: Set<u64>, id: Option<EntityId>) -> bool {
    match id {
        Some(id) => !issued.contains(id) && !before.dom().contains(id) && after.dom().contains(id) && after
            == before.insert(id, after[id]),
        None => after == before,
    }
}

/// Among the records, no entity but `ship` has a player component, and its
/// pools are within their bounds.
pub open spec fn ships_within(records: Map<u64, Components>, ship: EntityId) -> bool {
    forall|id: u64|
        records.dom().contains(id) && (#[trigger] records[id]).player is Some ==> id == ship
            && records[id].player->0.pools_in_bounds()
}

/// Writing rows whose ships are in order over records whose ships are in
/// order leaves the ships in order.
pub proof fn lemma_written_keeps_ships(records: Map<u64, Components>, rows: Seq<Row>, ship: EntityId)
    requires
        ships_within(records, ship),
        crate::pilot::only_ship(rows, ship),
        crate::pilot::pools_in_bounds(rows),
    ensures
        ships_within(written(records, rows), ship),
    decreases rows.len(),
{
    if rows.len() > 0 {
        let head = rows.drop_last();
        assert forall|i: int| 0 <= i < head.len() implies head[i] == rows[i] by {}
        assert(crate::pilot::only_ship(head, ship)) by {
            assert forall|i: int| 0 <= i < head.len() && (#[trigger] head[i]).c.player is Some implies head[i].id
                == ship by {
                assert(head[i] == rows[i]);
            }
        }
        assert(crate::pilot::pools_in_bounds(head)) by {
            assert forall|i: int| 0 <= i < head.len() && (#[trigger] head[i]).c.player is Some implies head[i].c.player->0.pools_in_bounds() by {
                assert(head[i] == rows[i]);
            }
        }
        lemma_written_keeps_ships(records, head, ship);
        let row = rows[rows.len() - 1];
        assert(row == rows.last());
    }
}

/// Among the records, every enemy has its hit points between zero and
/// their maximum.
pub open spec fn enemies_within(records: Map<u64, Components>) -> bool {
    forall|id: u64|
        records.dom().contains(id) && (#[trigger] records[id]).enemy is Some ==> records[id].enemy->0.hp_in_bounds()
}

/// Writing rows whose enemies are in order over records whose enemies are
/// in order leaves the enemies in order.
pub proof fn lemma_written_keeps_enemies(records: Map<u64, Components>, rows: Seq<Row>)
    requires
        enemies_within(records),
        enemies_in_bounds(rows),
    ensures
        enemies_within(written(records, rows)),
    decreases rows.len(),
{
    if rows.len() > 0 {
        let head = rows.drop_last();
        assert(enemies_in_bounds(head)) by {
            assert forall|i: int| 0 <= i < head.len() && (#[trigger] head[i]).c.enemy is Some implies head[i].c.enemy->0.hp_in_bounds() by {
                assert(head[i] == rows[i]);
            }
        }
        lemma_written_keeps_enemies(records, head);
        let row = rows[rows.len() - 1];
        assert(row == rows.last());
    }
}

/// A snapshot of records whose enemies are in order has its enemies in
/// order.
pub proof fn lemma_snapshot_keeps_enemies(records: Map<u64, Components>, rows: Seq<Row>)
    requires
        enemies_within(records),
        is_snapshot(rows, records),
    ensures
        enemies_in_bounds(rows),
{
    assert forall|i: int| 0 <= i < rows.len() && (#[trigger] rows[i]).c.enemy is Some implies rows[i].c.enemy->0.hp_in_bounds() by {
        assert(records.dom().contains(rows[i].id));
        assert(records[rows[i].id] == rows[i].c);
    }
}

/// A snapshot of records whose ships are in order has its ships in order.
pub proof fn lemma_snapshot_keeps_ships(records: Map<u64, Components>, rows: Seq<Row>, ship: EntityId)
    requires
        ships_within(records, ship),
        is_snapshot(rows, records),
    ensures
        crate::pilot::only_ship(rows, ship),
        crate::pilot::pools_in_bounds(rows),
{
    assert forall|i: int| 0 <= i < rows.len() && (#[trigger] rows[i]).c.player is Some implies rows[i].id == ship
        && rows[i].c.player->0.pools_in_bounds() by {
        assert(records.dom().contains(rows[i].id));
        assert(records[rows[i].id] == rows[i].c);
    }
}

pub struct SceneStage {
    pub score: usize,
    pub skillpoint_count: usize,
    pub slowmotion: SlowmotionModulator,
    pub director: Director,
    pub store: Store,
    pub commands: WorldCommandBuffer,
    /// The entity that was spawned as the player's ship. It is gone once
    /// the round is lost.
    pub player: EntityId,
}

/// The skills that the player starts with.
pub open spec fn starting_skills() -> Seq<Skill> {
    seq![Skill::AddHp(15), Skill::AddPercentageBoost(50)]
}

/// What the direct spawns of a frame make of the store: the records after
/// the enemy, the resource, the attack and the ammunition have been
/// spawned, one after the other, each only if it was due.
#[verifier::opaque]
pub open spec fn stocked(
    before: Map<u64, Components>,
    after: Map<u64, Components>,
    issued: Set<u64>,
    report: SpawnReport,
    input: FrameInput,
    player: EntityId,
) -> bool {
    exists|with_enemy: Map<u64, Components>, with_resource: Map<u64, Components>, with_attack: Map<u64, Components>|
        {
            &&& #[trigger] one_spawned(before, with_enemy, issued, report.enemy)
            &&& #[trigger] one_spawned(with_enemy, with_resource, issued, report.resource)
            &&& #[trigger] one_spawned(with_resource, with_attack, issued, report.attack)
            &&& one_spawned(with_attack, after, issued, report.ammo)
            &&& report.enemy is Some == report.decided.0 is Some
            &&& report.resource is Some == report.decided.1 is Some
            &&& report.attack is Some == report.decided.2 is Some
            &&& report.ammo is Some == input.spawn_ammo
            &&& report.enemy is Some ==> is_enemy_of(
                with_enemy[report.enemy->0],
                report.decided.0->0,
                input.canvas_width,
                input.canvas_height,
            )
            &&& report.resource is Some ==> is_resource_of(
                with_resource[report.resource->0],
                report.decided.1->0,
                input.canvas_width,
                input.canvas_height,
            )
            &&& report.attack is Some ==> is_attack_of(
                with_attack[report.attack->0],
                report.decided.2->0,
                input.canvas_width,
                input.canvas_height,
            )
            &&& report.ammo is Some ==> is_ammo_for(after[report.ammo->0], player, input.canvas_width, input.canvas_height)
        }
}

impl SceneStage {
    pub open spec fn wf(&self) -> bool {
        &&& self.store.wf()
        &&& self.director.wf()
    }

    /// No entity but the player's has a player component, and the pools of
    /// the ship are within their bounds.
    pub open spec fn ships_ok(&self) -> bool {
        ships_within(self.store@, self.player)
    }

    /// Every enemy has its hit points between zero and their maximum.
    pub open spec fn enemies_ok(&self) -> bool {
        enemies_within(self.store@)
    }

    /// Whether the round is still on: the player's ship exists.
    pub open spec fn player_alive(&self) -> bool {
        self.store@.dom().contains(self.player) && self.store@[self.player].player is Some
    }

    /// A stage at its start: nothing scored, nothing queued, time at its
    /// normal pace, the player's ship alone in the middle of the canvas,
    /// and the director at the start of the first round.
    pub open spec fn is_new(&self, canvas_width: i64, canvas_height: i64) -> bool {
        &&& self.wf()
        &&& self.score == 0
        &&& self.skillpoint_count == 0
        &&& self.slowmotion == SlowmotionModulator::new_spec()
        &&& self.commands@.len() == 0
        &&& self.store@.dom() == set![self.player]
        &&& Archetypes::is_player(
            self.store@[self.player],
            Vec2 {
                x: crate::fixed::tdiv(canvas_width as int, 2) as i64,
                y: crate::fixed::tdiv(canvas_height as int, 2) as i64,
            },
            ShipType::Sorcerer,
            starting_skills(),
        )
        &&& self.player_alive()
        &&& self.ships_ok()
        &&& self.enemies_ok()
        &&& self.director.is_new()
    }

    /// A stage with the player's ship in the middle of the canvas and the
    /// first round planned, by the next 32 words.
    pub fn new(entropy: &mut Entropy, canvas_width: i64, canvas_height: i64) -> (scene: SceneStage)
        ensures
            scene.is_new(canvas_width, canvas_height),
            crate::director::is_planned_by(
                scene.director.round_enemies_and_spawntimes@,
                1,
                crate::director::ROUND_DURATION,
                *old(entropy),
            ),
            old(entropy).drawn(final(entropy), 32),
    {
        let mut store: Store = Store::new();
        let mut skills: Vec<Skill> = Vec::new();
        skills.push(Skill::AddHp(15));
        skills.push(Skill::AddPercentageBoost(50));
        assert(skills@ =~= starting_skills());
        let player_pos: Vec2 = Vec2 { x: canvas_width / 2, y: canvas_height / 2 };
        let record: Components = Archetypes::new_player(player_pos, ShipType::Sorcerer, &skills);
        proof {
            reveal(Archetypes::is_player);
        }
        let player: EntityId = store.spawn(record);
        assert(store@.dom() =~= set![player]);
        SceneStage {
            score: 0,
            skillpoint_count: 0,
            slowmotion: SlowmotionModulator::new(),
            director: Director::new(entropy),
            store,
            commands: WorldCommandBuffer::new(),
            player,
        }
    }

    /// Lets the director decide what is due, and spawns it: an enemy and
    /// pickups on lanes into the canvas, and ammunition somewhere on the
    /// canvas while its key is held.
    #[verifier::rlimit(50)]
    pub fn spawn_phase(&mut self, input: &FrameInput, deltatime: i64, entropy: &mut Entropy) -> (report: SpawnReport)
        requires
            old(self).wf(),
        ensures
            final(self).wf(),
            Director::updated(old(self).director, final(self).director, report.decided, deltatime),
            stocked(old(self).store@, final(self).store@, old(self).store.issued(), report, *input, old(self).player),
            old(self).store.issued().subset_of(final(self).store.issued()),
            forall|id: u64|
                final(self).store@.dom().contains(id) ==> (old(self).store@.dom().contains(id) && final(self).store@[id]
                    == old(self).store@[id]) || (#[trigger] final(self).store@[id]).player is None,
            final(self).score == old(self).score,
            final(self).skillpoint_count == old(self).skillpoint_count,
            final(self).slowmotion == old(self).slowmotion,
            final(self).commands@ == old(self).commands@,
            final(self).player == old(self).player,
            enemies_within(old(self).store@) ==> enemies_within(final(self).store@),
    {
        let decided = self.director.update_and_spawn_enemies_and_collectibles(entropy, deltatime);
        let ghost issued = self.store.issued();
        let ghost before = self.store@;
        let mut enemy: Option<EntityId> = None;
        match decided.0 {
            Some(kind) => {
                let (pos, vel): (Vec2, Vec2) = create_spawn_pos_vel(entropy, input.canvas_width, input.canvas_height);
                let record: Components = match kind {
                    EnemyType::Rock => Archetypes::new_enemy_rock(entropy, pos, vel, 8_000_000),
                    EnemyType::Shooter => Archetypes::new_enemy_shooter(pos, vel),
                };
                assert(is_enemy_of(record, kind, input.canvas_width, input.canvas_height));
                assert(record.player is None && record.enemy is Some && record.enemy->0.hp_in_bounds()) by {
                    reveal(Archetypes::is_enemy_rock);
                    reveal(Archetypes::is_enemy_shooter);
                    assert(record.plain_part().player == record.player);
                    assert(record.plain_part().enemy == record.enemy);
                }
                enemy = Some(self.store.spawn(record));
            },
            None => {},
        }
        let ghost with_enemy = self.store@;
        assert(one_spawned(before, with_enemy, issued, enemy)) by {
            if enemy is Some {
                assert(with_enemy =~= before.insert(enemy->0, with_enemy[enemy->0]));
            }
        }
        let mut resource: Option<EntityId> = None;
        match decided.1 {
            Some(kind) => {
                let (pos, vel): (Vec2, Vec2) = create_spawn_pos_vel(entropy, input.canvas_width, input.canvas_height);
                let record: Components = match kind {
                    ResourceType::Boost => {
                        let dir_angle: i64 = entropy.range(0, FULL_TURN);
                        let dir_angle_vel: i64 = entropy.range(-360_000_000, FULL_TURN);
                        let c: Components = Archetypes::new_boost_collectible(pos, vel, dir_angle, dir_angle_vel);
                        assert(is_resource_at(c, kind, pos, vel, dir_angle, dir_angle_vel));
                        c
                    },
                    ResourceType::Skillpoint => {
                        let dir_angle: i64 = entropy.range(0, FULL_TURN);
                        let dir_angle_vel: i64 = entropy.range(-360_000_000, FULL_TURN);
                        let c: Components = Archetypes::new_skillpoints_collectible(
                            pos,
                            vel,
                            dir_angle,
                            dir_angle_vel,
                        );
                        assert(is_resource_at(c, kind, pos, vel, dir_angle, dir_angle_vel));
                        c
                    },
                    ResourceType::Health => {
                        let c: Components = Archetypes::new_hp_collectible(pos, vel);
                        assert(is_resource_at(c, kind, pos, vel, 0, 0));
                        c
                    },
                };
                assert(is_resource_of(record, kind, input.canvas_width, input.canvas_height));
                assert(record.player is None && record.enemy is None) by {
                    reveal(Archetypes::is_hp_collectible);
                    reveal(Archetypes::is_core_collectible);
                    assert(record.plain_part().player == record.player);
                    assert(record.plain_part().enemy == record.enemy);
                }
                resource = Some(self.store.spawn(record));
            },
            None => {},
        }
        let ghost with_resource = self.store@;
        assert(one_spawned(with_enemy, with_resource, issued, resource)) by {
            if resource is Some {
                assert(with_resource =~= with_enemy.insert(resource->0, with_resource[resource->0]));
            }
        }
        let mut attack: Option<EntityId> = None;
        match decided.2 {
            Some(kind) => {
                let (pos, vel): (Vec2, Vec2) = create_spawn_pos_vel(entropy, input.canvas_width, input.canvas_height);
                proof {
                    reveal(Director::updated);
                }
                let record: Components = Archetypes::new_attack_collectible(pos, vel, kind);
                assert(is_attack_of(record, kind, input.canvas_width, input.canvas_height));
                assert(record.player is None && record.enemy is None) by {
                    reveal(Archetypes::is_attack_collectible);
                    assert(record.plain_part().player == record.player);
                    assert(record.plain_part().enemy == record.enemy);
                }
                attack = Some(self.store.spawn(record));
            },
            None => {},
        }
        let ghost with_attack = self.store@;
        assert(one_spawned(with_resource, with_attack, issued, attack)) by {
            if attack is Some {
                assert(with_attack =~= with_resource.insert(attack->0, with_attack[attack->0]));
            }
        }
        let mut ammo: Option<EntityId> = None;
        if input.spawn_ammo {
            let pos: Vec2 = Vec2 { x: entropy.range(0, input.canvas_width), y: entropy.range(0, input.canvas_height) };
            let vel: Vec2 = random_offset(entropy, 20_000_000);
            let dir_angle: i64 = entropy.range(0, FULL_TURN);
            let record: Components = Archetypes::new_ammo_collectible(
                pos,
                vel,
                dir_angle,
                entropy.range(-360_000_000, FULL_TURN),
                self.player,
            );
            assert(is_ammo_for(record, self.player, input.canvas_width, input.canvas_height));
            assert(record.player is None && record.enemy is None) by {
                reveal(Archetypes::is_ammo_collectible);
                assert(record.plain_part().player == record.player);
                assert(record.plain_part().enemy == record.enemy);
            }
            ammo = Some(self.store.spawn(record));
        }
        let report: SpawnReport = SpawnReport { decided, enemy, resource, attack, ammo };
        proof {
            reveal(stocked);
            assert(one_spawned(with_attack, self.store@, issued, ammo)) by {
                if ammo is Some {
                    assert(self.store@ =~= with_attack.insert(ammo->0, self.store@[ammo->0]));
                }
            }
        }
        report
    }

    /// Runs one frame: the clock is slowed, the passes up to steering run
    /// over a snapshot of the entities, the director spawns what is due,
    /// the remaining passes run, the snapshot is written back, and the
    /// queued changes are made. The frame handed back holds the entities
    /// as the passes left them, before the queued changes.
    #[verifier::rlimit(50)]
    pub fn update_and_draw(&mut self, input: &FrameInput, entropy: &mut Entropy) -> (output: FrameOutput)
        requires
            old(self).wf(),
        ensures
            final(self).wf(),
            frame_done(*old(self), *final(self), output, *input),
            final(self).commands@.len() == 0,
            final(self).player == old(self).player,
            old(self).ships_ok() && crate::commands::all_harmless(old(self).commands@) ==> final(self).ships_ok(),
            old(self).enemies_ok() && crate::commands::all_harmless(old(self).commands@) ==> final(self).enemies_ok(),
    {
        let restart: bool = !self.is_player_alive() && input.any_key_pressed;
        let deltatime: i64 = self.slowmotion.update_and_get_new_deltatime(input.deltatime);
        let ctx: StageCtx = StageCtx {
            deltatime,
            canvas_width: input.canvas_width,
            canvas_height: input.canvas_height,
            player: self.player,
        };
        let ghost in_order = self.ships_ok() && crate::commands::all_harmless(self.commands@);
        let ghost in_bounds = self.enemies_ok() && crate::commands::all_harmless(self.commands@);
        let ghost store_before = self.store@;
        let mut rows: Vec<Row> = self.store.snapshot();
        let ghost rows_before = rows@;
        proof {
            if in_order {
                lemma_snapshot_keeps_ships(self.store@, rows@, self.player);
            }
            if in_bounds {
                lemma_snapshot_keeps_enemies(self.store@, rows@);
            }
        }
        run_early_passes(&mut rows, &mut self.commands, &ctx);
        let ghost early = rows@;
        let ghost queue_early = self.commands@;
        let report: SpawnReport = self.spawn_phase(input, deltatime, entropy);
        let ghost stock = self.store@;
        proof {
            if in_order {
                assert(ships_within(stock, self.player)) by {
                    assert forall|id: u64|
                        stock.dom().contains(id) && (#[trigger] stock[id]).player is Some implies id == self.player
                            && stock[id].player->0.pools_in_bounds() by {
                        assert(store_before.dom().contains(id) && stock[id] == store_before[id]);
                    }
                }
            }
        }
        join_row(&mut rows, &self.store, report.enemy);
        join_row(&mut rows, &self.store, report.resource);
        join_row(&mut rows, &self.store, report.attack);
        join_row(&mut rows, &self.store, report.ammo);
        let outcome: FrameOutcome = run_late_passes(
            &mut rows,
            &mut self.commands,
            &input.keys,
            &ctx,
            &input.font,
            entropy,
        );
        let ghost frame_rows = rows@;
        let ghost queue = self.commands@;
        proof {
            if in_order {
                lemma_written_keeps_ships(stock, frame_rows, self.player);
            }
            if in_bounds {
                lemma_written_keeps_enemies(stock, frame_rows);
            }
        }
        self.store.write_back(rows);
        let ghost kept = self.store@;
        let ghost kept_issued = self.store.issued();
        proof {
            crate::store::lemma_written_dom(stock, frame_rows);
            assert forall|id: u64| stock.dom().contains(id) implies kept_issued.contains(id) by {
                self.store.lemma_alive_is_issued(id);
            }
        }
        let frame: Vec<Row> = self.store.snapshot();
        let spawned: Vec<EntityId> = self.commands.execute(&mut self.store);
        self.score = add_score(add_score(self.score, outcome.kills), outcome.player.score_gain);
        self.skillpoint_count = add_score(self.skillpoint_count, outcome.player.skillpoints_gain);
        let shake: Option<ScreenShake> = match outcome.player.response {
            Some(r) => {
                self.slowmotion.add_slowmotion(r.slowmotion_duration, r.slowmotion_factor);
                Some(
                    ScreenShake {
                        amplitude: r.screenshake_amplitude,
                        duration: r.screenshake_duration,
                        frequency: r.screenshake_frequency,
                    },
                )
            },
            None => None,
        };
        let output: FrameOutput = FrameOutput { restart, shake, frame };
        proof {
            if in_order {
                assert forall|id: u64|
                    self.store@.dom().contains(id) && (#[trigger] self.store@[id]).player is Some implies id
                        == self.player && self.store@[id].player->0.pools_in_bounds() by {
                    crate::commands::lemma_harmless_adds_no_ship(kept, queue, spawned@, id);
                }
            }
            if in_bounds {
                assert forall|id: u64|
                    self.store@.dom().contains(id) && (#[trigger] self.store@[id]).enemy is Some implies self.store@[id].enemy->0.hp_in_bounds() by {
                    crate::commands::lemma_harmless_adds_no_enemy(kept, queue, spawned@, id);
                }
            }
            reveal(frame_done);
            assert(is_frame(
                *old(self),
                *self,
                output,
                *input,
                FrameWitness {
                    rows: rows_before,
                    early,
                    queue_early,
                    report,
                    stock,
                    frame: frame_rows,
                    queue,
                    outcome,
                    spawned: spawned@,
                },
            ));
        }
        output
    }

    /// What the heads-up display shows. Once the ship is gone all of its
    /// gauges read zero.
    pub open spec fn hud_spec(&self) -> Hud {
        if self.player_alive() {
            let p = self.store@[self.player].player->0;
            Hud {
                score: self.score,
                skillpoint_count: self.skillpoint_count,
                hp: p.hp,
                hp_max: p.hp_max,
                boost: p.boost,
                boost_max: p.boost_max,
                ammo: p.ammo,
                ammo_max: p.ammo_max,
                cycle_ratio: p.cycle_timer.ratio() as i64,
                round_ratio: self.director.timer_round.ratio() as i64,
                difficulty: self.director.difficulty,
                round_over: false,
            }
        } else {
            Hud {
                score: self.score,
                skillpoint_count: self.skillpoint_count,
                hp: 0,
                hp_max: 0,
                boost: 0,
                boost_max: 0,
                ammo: 0,
                ammo_max: 0,
                cycle_ratio: 0,
                round_ratio: self.director.timer_round.ratio() as i64,
                difficulty: self.director.difficulty,
                round_over: true,
            }
        }
    }

    pub fn hud(&self) -> (hud: Hud)
        ensures
            hud == self.hud_spec(),
    {
        let round_ratio: i64 = self.director.timer_round.completion_ratio();
        let gone: Hud = Hud {
            score: self.score,
            skillpoint_count: self.skillpoint_count,
            hp: 0,
            hp_max: 0,
            boost: 0,
            boost_max: 0,
            ammo: 0,
            ammo_max: 0,
            cycle_ratio: 0,
            round_ratio,
            difficulty: self.director.difficulty,
            round_over: true,
        };
        match self.store.get(self.player) {
            Some(c) => match c.player {
                Some(p) => Hud {
                    score: self.score,
                    skillpoint_count: self.skillpoint_count,
                    hp: p.hp,
                    hp_max: p.hp_max,
                    boost: p.boost,
                    boost_max: p.boost_max,
                    ammo: p.ammo,
                    ammo_max: p.ammo_max,
                    cycle_ratio: p.cycle_timer.completion_ratio(),
                    round_ratio,
                    difficulty: self.director.difficulty,
                    round_over: false,
                },
                None => gone,
            },
            None => gone,
        }
    }

    pub fn is_player_alive(&self) -> (alive: bool)
        ensures
            alive == self.player_alive(),
    {
        match self.store.get(self.player) {
            Some(c) => c.player.is_some(),
            None => false,
        }
    }
}

/// The readings of the heads-up display.
#[derive(Clone, Copy, Debug, PartialEq, Eq, Structural)]
pub struct Hud {
    pub score: usize,
    pub skillpoint_count: usize,
    pub hp: i64,
    pub hp_max: i64,
    pub boost: i64,
    pub boost_max: i64,
    pub ammo: i64,
    pub ammo_max: i64,
    /// How far the player's cycle has come, as a share of `UNIT`.
    pub cycle_ratio: i64,
    /// How far the round has come, as a share of `UNIT`.
    pub round_ratio: i64,
    pub difficulty: usize,
    /// The ship is gone: any key starts a new round.
    pub round_over: bool,
}

/// What happened inside a frame.
pub struct FrameWitness {
    /// The snapshot that the passes started from.
    pub rows: Seq<Row>,
    /// The rows as the passes before the spawns left them.
    pub early: Seq<Row>,
    /// The queue as the passes before the spawns left it.
    pub queue_early: Seq<Command>,
    /// What the director decided and what was spawned for it.
    pub report: SpawnReport,
    /// The records after the direct spawns.
    pub stock: Map<u64, Components>,
    /// The rows as the passes left them.
    pub frame: Seq<Row>,
    /// The queue as the passes left it.
    pub queue: Seq<Command>,
    pub outcome: FrameOutcome,
    /// The identities of the entities that the queue created.
    pub spawned: Seq<u64>,
}

/// The slow motion after a frame: damage starts a new one, which takes the
/// place of any that was under way; otherwise the one under way goes on.
pub open spec fn slowmotion_next(before: SlowmotionModulator, dt: i64, response: Option<DamageResponse>) -> SlowmotionModulator {
    match response {
        Some(r) => SlowmotionModulator::started_spec(r.slowmotion_duration, r.slowmotion_factor),
        None => before.advanced(dt),
    }
}

pub open spec fn shake_for(response: Option<DamageResponse>) -> Option<ScreenShake> {
    match response {
        Some(r) => Some(
            ScreenShake {
                amplitude: r.screenshake_amplitude,
                duration: r.screenshake_duration,
                frequency: r.screenshake_frequency,
            },
        ),
        None => None,
    }
}

/// The rows with one more row for a spawned entity.
pub open spec fn with_row(rows: Seq<Row>, stock: Map<u64, Components>, id: Option<EntityId>) -> Seq<Row> {
    match id {
        Some(id) => if stock.dom().contains(id) {
            rows.push(Row { id, c: stock[id] })
        } else {
            rows
        },
        None => rows,
    }
}

/// The rows with the entities that the frame spawned: enemy, resource,
/// attack, ammunition.
pub open spec fn joined(rows: Seq<Row>, stock: Map<u64, Components>, report: SpawnReport) -> Seq<Row> {
    with_row(
        with_row(with_row(with_row(rows, stock, report.enemy), stock, report.resource), stock, report.attack),
        stock,
        report.ammo,
    )
}

/// Adds a row for a spawned entity.
pub fn join_row(rows: &mut Vec<Row>, store: &Store, id: Option<EntityId>)
    ensures
        final(rows)@ == with_row(old(rows)@, store@, id),
        id is Some && store@.dom().contains(id->0) && store@[id->0].player is Some ==> final(rows)@ == old(rows)@.push(
            Row { id: id->0, c: store@[id->0] },
        ),
        !(id is Some && store@.dom().contains(id->0) && store@[id->0].player is Some) ==> forall|ship: EntityId|
            crate::pilot::only_ship(old(rows)@, ship) ==> #[trigger] crate::pilot::only_ship(final(rows)@, ship),
        !(id is Some && store@.dom().contains(id->0) && store@[id->0].player is Some) ==> (
        crate::pilot::pools_in_bounds(old(rows)@) ==> crate::pilot::pools_in_bounds(final(rows)@)),
        enemies_within(store@) && enemies_in_bounds(old(rows)@) ==> enemies_in_bounds(final(rows)@),
{
    let ghost before = rows@;
    match id {
        Some(id) => match store.get(id) {
            Some(c) => {
                rows.push(Row { id, c });
            },
            None => {},
        },
        None => {},
    }
    proof {
        if !(id is Some && store@.dom().contains(id->0) && store@[id->0].player is Some) {
            assert forall|i: int| 0 <= i < rows@.len() && (#[trigger] rows@[i]).c.player is Some implies i
                < before.len() && rows@[i] == before[i] by {}
            assert forall|ship: EntityId| crate::pilot::only_ship(before, ship) implies #[trigger] crate::pilot::only_ship(
                rows@,
                ship,
            ) by {
                assert forall|i: int| 0 <= i < rows@.len() && (#[trigger] rows@[i]).c.player is Some implies rows@[i].id
                    == ship by {
                    assert(rows@[i] == before[i]);
                }
            }
            if crate::pilot::pools_in_bounds(before) {
                assert forall|i: int| 0 <= i < rows@.len() && (#[trigger] rows@[i]).c.player is Some implies rows@[i].c.player->0.pools_in_bounds() by {
                    assert(rows@[i] == before[i]);
                }
            }
        }
    }
}

/// The steps of a frame, with what passed between them. The entities that
/// the queue creates are new to the store and differ from each other.
/// The steps:
/// the game clock is the real one slowed down; a snapshot of the store is
/// taken; the passes up to steering run on it; the director is updated on
/// the game clock, what it calls for is spawned and joins the rows; the
/// remaining passes run; the rows are written back; the frame to draw is a
/// snapshot of that; only then the queue of structural changes is run, and
/// emptied. Score and skill points grow by what the passes report, and
/// damage to the player shakes the screen and starts a slow motion.
pub open spec fn is_frame(before: SceneStage, after: SceneStage, output: FrameOutput, input: FrameInput, w: FrameWitness) -> bool {
    let dt = before.slowmotion.slowed(input.deltatime);
    let ctx = StageCtx {
        deltatime: dt,
        canvas_width: input.canvas_width,
        canvas_height: input.canvas_height,
        player: before.player,
    };
    let response = w.outcome.player.response;
    &&& output.restart == (!before.player_alive() && input.any_key_pressed)
    &&& is_snapshot(w.rows, before.store@)
    &&& early_simulated(w.rows, before.commands@, w.early, w.queue_early, ctx)
    &&& Director::updated(before.director, after.director, w.report.decided, dt)
    &&& stocked(before.store@, w.stock, before.store.issued(), w.report, input, before.player)
    &&& late_simulated(
        joined(w.early, w.stock, w.report),
        w.queue_early,
        w.frame,
        w.queue,
        w.outcome,
        input.keys,
        ctx,
        input.font,
    )
    &&& is_snapshot(output.frame@, written(w.stock, w.frame))
    &&& w.spawned.len() == spawn_count(w.queue)
    &&& forall|k: int| 0 <= k < w.spawned.len() ==> !before.store.issued().contains(#[trigger] w.spawned[k])
    &&& forall|k: int| 0 <= k < w.spawned.len() ==> !w.stock.dom().contains(#[trigger] w.spawned[k])
    &&& forall|k: int, l: int| 0 <= k < l < w.spawned.len() ==> w.spawned[k] != w.spawned[l]
    &&& after.store@ == after_commands(written(w.stock, w.frame), w.queue, w.spawned)
    &&& after.commands@.len() == 0
    &&& after.player == before.player
    &&& after.score == score_plus(score_plus(before.score, w.outcome.kills), w.outcome.player.score_gain)
    &&& after.skillpoint_count == score_plus(before.skillpoint_count, w.outcome.player.skillpoints_gain)
    &&& after.slowmotion == slowmotion_next(before.slowmotion, input.deltatime, response)
    &&& output.shake == shake_for(response)
}

/// The scene and the output are what one frame makes of the scene before
/// and the input.
#[verifier::opaque]
pub open spec fn frame_done(before: SceneStage, after: SceneStage, output: FrameOutput, input: FrameInput) -> bool {
    exists|w: FrameWitness| #[trigger] is_frame(before, after, output, input, w)
}

/// What a frame despawns stays gone: an entity that was alive before the
/// frame and whose despawn the frame queued is not in the store after it,
/// whatever the frame spawned.
pub proof fn lemma_despawned_is_gone(
    before: SceneStage,
    after: SceneStage,
    output: FrameOutput,
    input: FrameInput,
    w: FrameWitness,
    id: EntityId,
    at: int,
)
    requires
        before.wf(),
        is_frame(before, after, output, input, w),
        before.store@.dom().contains(id),
        0 <= at < w.queue.len(),
        w.queue[at] == Command::Despawn(id),
    ensures
        !after.store@.dom().contains(id),
{
    before.store.lemma_alive_is_issued(id);
    crate::commands::lemma_despawned_stays_gone(written(w.stock, w.frame), w.queue, w.spawned, id, at);
}

/// A ship that the passes after the spawns find outside the canvas is not
/// in the store after the frame, whatever it touches and whether it is
/// invincible or not: the round is lost.
pub proof fn lemma_ship_outside_is_gone(
    before: SceneStage,
    after: SceneStage,
    output: FrameOutput,
    input: FrameInput,
    w: FrameWitness,
    i: int,
)
    requires
        before.wf(),
        is_frame(before, after, output, input, w),
        0 <= i < joined(w.early, w.stock, w.report).len(),
        before.store@.dom().contains(joined(w.early, w.stock, w.report)[i].id),
        ({
            let ship = joined(w.early, w.stock, w.report)[i].c;
            &&& crate::pilot::is_player_row(ship)
            &&& !(0 <= ship.transform->0.pos.x < input.canvas_width && 0 <= ship.transform->0.pos.y
                < input.canvas_height)
            &&& crate::player::none_heals(
                ship.collider->0.collisions@,
                crate::census::facts_of(joined(w.early, w.stock, w.report)),
            )
            &&& ship.player->0.pools_in_bounds()
            &&& ship.player->0.hp_max > 0
        }),
    ensures
        !after.store@.dom().contains(joined(w.early, w.stock, w.report)[i].id),
        joined(w.early, w.stock, w.report)[i].id == before.player ==> !after.player_alive(),
{
    let rows = joined(w.early, w.stock, w.report);
    let ctx = StageCtx {
        deltatime: before.slowmotion.slowed(input.deltatime),
        canvas_width: input.canvas_width,
        canvas_height: input.canvas_height,
        player: before.player,
    };
    crate::frame::lemma_ship_outside_is_despawned(
        rows,
        w.queue_early,
        w.frame,
        w.queue,
        w.outcome,
        input.keys,
        ctx,
        input.font,
        i,
    );
    let gone = Command::Despawn(rows[i].id);
    let at = choose|at: int| 0 <= at < w.queue.len() && w.queue[at] == gone;
    lemma_despawned_is_gone(before, after, output, input, w, rows[i].id, at);
}

/// A collectible that something touches when the passes after the spawns
/// begin is not in the store after the frame.
pub proof fn lemma_touched_collectible_is_gone(
    before: SceneStage,
    after: SceneStage,
    output: FrameOutput,
    input: FrameInput,
    w: FrameWitness,
    i: int,
)
    requires
        before.wf(),
        is_frame(before, after, output, input, w),
        0 <= i < joined(w.early, w.stock, w.report).len(),
        before.store@.dom().contains(joined(w.early, w.stock, w.report)[i].id),
        crate::pickups::is_collectible_row(joined(w.early, w.stock, w.report)[i].c),
        crate::pickups::collected(joined(w.early, w.stock, w.report)[i].c),
    ensures
        !after.store@.dom().contains(joined(w.early, w.stock, w.report)[i].id),
{
    let rows = joined(w.early, w.stock, w.report);
    let ctx = StageCtx {
        deltatime: before.slowmotion.slowed(input.deltatime),
        canvas_width: input.canvas_width,
        canvas_height: input.canvas_height,
        player: before.player,
    };
    crate::frame::lemma_touched_collectible_is_despawned(
        rows,
        w.queue_early,
        w.frame,
        w.queue,
        w.outcome,
        input.keys,
        ctx,
        input.font,
        i,
    );
    let gone = Command::Despawn(rows[i].id);
    let at = choose|at: int| 0 <= at < w.queue.len() && w.queue[at] == gone;
    lemma_despawned_is_gone(before, after, output, input, w, rows[i].id, at);
}

/// The rows list entities of `known`, each at most once.
pub open spec fn rows_within(rows: Seq<Row>, known: Set<u64>) -> bool {
    &&& forall|i: int, j: int| 0 <= i < j < rows.len() ==> rows[i].id != rows[j].id
    &&& forall|i: int| 0 <= i < rows.len() ==> known.contains(#[trigger] rows[i].id)
}

/// A row for a newly spawned entity joins rows that list each entity at
/// most once, and they still do.
pub proof fn lemma_with_row_within(
    rows: Seq<Row>,
    before: Map<u64, Components>,
    after: Map<u64, Components>,
    stock: Map<u64, Components>,
    issued: Set<u64>,
    id: Option<EntityId>,
)
    requires
        rows_within(rows, before.dom()),
        one_spawned(before, after, issued, id),
    ensures
        rows_within(with_row(rows, stock, id), after.dom()),
{
    let next = with_row(rows, stock, id);
    assert forall|i: int| 0 <= i < next.len() implies after.dom().contains(#[trigger] next[i].id) by {
        if i < rows.len() {
            assert(next[i] == rows[i]);
            assert(before.dom().contains(rows[i].id));
        }
    }
    assert forall|i: int, j: int| 0 <= i < j < next.len() implies next[i].id != next[j].id by {
        assert(next[i] == rows[i]);
        assert(before.dom().contains(rows[i].id));
        if j < rows.len() {
            assert(next[j] == rows[j]);
        }
    }
}

/// The rows that the passes after the spawns work on list entities of the
/// store as the spawns left it, each at most once.
pub proof fn lemma_joined_rows_within(
    rows: Seq<Row>,
    early: Seq<Row>,
    before: Map<u64, Components>,
    stock: Map<u64, Components>,
    issued: Set<u64>,
    report: SpawnReport,
    input: FrameInput,
    player: EntityId,
)
    requires
        is_snapshot(rows, before),
        crate::frame::same_ids(rows, early),
        stocked(before, stock, issued, report, input, player),
    ensures
        rows_within(joined(early, stock, report), stock.dom()),
        before.dom().subset_of(stock.dom()),
        forall|id: u64| before.dom().contains(id) ==> #[trigger] stock[id] == before[id],
{
    reveal(stocked);
    let (with_enemy, with_resource, with_attack) = choose|
        with_enemy: Map<u64, Components>,
        with_resource: Map<u64, Components>,
        with_attack: Map<u64, Components>,
    |
        {
            &&& #[trigger] one_spawned(before, with_enemy, issued, report.enemy)
            &&& #[trigger] one_spawned(with_enemy, with_resource, issued, report.resource)
            &&& #[trigger] one_spawned(with_resource, with_attack, issued, report.attack)
            &&& one_spawned(with_attack, stock, issued, report.ammo)
        };
    assert(rows_within(early, before.dom())) by {
        assert forall|i: int, j: int| 0 <= i < j < early.len() implies early[i].id != early[j].id by {
            assert(early[i].id == rows[i].id && early[j].id == rows[j].id);
        }
        assert forall|i: int| 0 <= i < early.len() implies before.dom().contains(#[trigger] early[i].id) by {
            assert(early[i].id == rows[i].id);
        }
    }
    let first = with_row(early, stock, report.enemy);
    lemma_with_row_within(early, before, with_enemy, stock, issued, report.enemy);
    let second = with_row(first, stock, report.resource);
    lemma_with_row_within(first, with_enemy, with_resource, stock, issued, report.resource);
    let third = with_row(second, stock, report.attack);
    lemma_with_row_within(second, with_resource, with_attack, stock, issued, report.attack);
    lemma_with_row_within(third, with_attack, stock, stock, issued, report.ammo);
    assert(before.dom().subset_of(stock.dom())) by {
        assert(before.dom().subset_of(with_enemy.dom()));
        assert(with_enemy.dom().subset_of(with_resource.dom()));
        assert(with_resource.dom().subset_of(with_attack.dom()));
        assert(with_attack.dom().subset_of(stock.dom()));
    }
    assert forall|id: u64| before.dom().contains(id) implies #[trigger] stock[id] == before[id] by {
        assert(with_enemy[id] == before[id]);
        assert(with_resource[id] == with_enemy[id]);
        assert(with_attack[id] == with_resource[id]);
        assert(stock[id] == with_attack[id]);
    }
}

/// The ship after a frame: if it is still in the store, it is as the
/// player pass left it, which is what `player_next` makes of the ship that
/// the passes after the spawns found.
pub proof fn lemma_ship_after_frame(
    before: SceneStage,
    after: SceneStage,
    output: FrameOutput,
    input: FrameInput,
    w: FrameWitness,
    i: int,
)
    requires
        before.wf(),
        is_frame(before, after, output, input, w),
        crate::commands::all_harmless(before.commands@),
        0 <= i < joined(w.early, w.stock, w.report).len(),
        joined(w.early, w.stock, w.report)[i].id == before.player,
        crate::pilot::is_player_row(joined(w.early, w.stock, w.report)[i].c),
        after.player_alive(),
    ensures
        after.store@[after.player].player == Some(
            crate::pilot::player_next(
                joined(w.early, w.stock, w.report)[i].c.player->0,
                joined(w.early, w.stock, w.report)[i].c.transform->0,
                joined(w.early, w.stock, w.report)[i].c.collider->0.collisions@,
                crate::census::facts_of(joined(w.early, w.stock, w.report)),
                input.keys,
                StageCtx {
                    deltatime: before.slowmotion.slowed(input.deltatime),
                    canvas_width: input.canvas_width,
                    canvas_height: input.canvas_height,
                    player: before.player,
                },
            ),
        ),
{
    let rows = joined(w.early, w.stock, w.report);
    let ctx = StageCtx {
        deltatime: before.slowmotion.slowed(input.deltatime),
        canvas_width: input.canvas_width,
        canvas_height: input.canvas_height,
        player: before.player,
    };
    crate::frame::lemma_early_keeps_ids(w.rows, before.commands@, w.early, w.queue_early, ctx);
    crate::frame::lemma_early_is_harmless(Set::full(), w.rows, before.commands@, w.early, w.queue_early, ctx);
    lemma_joined_rows_within(
        w.rows,
        w.early,
        before.store@,
        w.stock,
        before.store.issued(),
        w.report,
        input,
        before.player,
    );
    crate::frame::lemma_late_updates_ships(rows, w.queue_early, w.frame, w.queue, w.outcome, input.keys, ctx, input.font);
    crate::frame::lemma_late_is_harmless(
        Set::full(),
        rows,
        w.queue_early,
        w.frame,
        w.queue,
        w.outcome,
        input.keys,
        ctx,
        input.font,
    );
    let kept = written(w.stock, w.frame);
    crate::commands::lemma_harmless_adds_no_ship(kept, w.queue, w.spawned, before.player);
    assert forall|a: int, b: int| 0 <= a < b < w.frame.len() implies w.frame[a].id != w.frame[b].id by {
        assert(w.frame[a].id == rows[a].id && w.frame[b].id == rows[b].id);
    }
    crate::store::lemma_written_rows(w.stock, w.frame);
    assert(w.frame[i].id == rows[i].id);
    assert(kept[w.frame[i].id] == w.frame[i].c);
}

/// A ship that is in the store before a frame has a row among those that
/// the passes after the spawns work on, with its player component as it
/// was before the frame.
pub proof fn lemma_ship_has_row(
    before: SceneStage,
    after: SceneStage,
    output: FrameOutput,
    input: FrameInput,
    w: FrameWitness,
) -> (i: int)
    requires
        is_frame(before, after, output, input, w),
        before.player_alive(),
    ensures
        0 <= i < joined(w.early, w.stock, w.report).len(),
        joined(w.early, w.stock, w.report)[i].id == before.player,
        joined(w.early, w.stock, w.report)[i].c.player == before.store@[before.player].player,
{
    let ctx = StageCtx {
        deltatime: before.slowmotion.slowed(input.deltatime),
        canvas_width: input.canvas_width,
        canvas_height: input.canvas_height,
        player: before.player,
    };
    let i = choose|i: int| 0 <= i < w.rows.len() && #[trigger] w.rows[i].id == before.player;
    crate::frame::lemma_early_keeps_ids(w.rows, before.commands@, w.early, w.queue_early, ctx);
    assert(w.early[i].id == w.rows[i].id && w.early[i].c.player == w.rows[i].c.player);
    let first = with_row(w.early, w.stock, w.report.enemy);
    assert(first[i] == w.early[i]);
    let second = with_row(first, w.stock, w.report.resource);
    assert(second[i] == first[i]);
    let third = with_row(second, w.stock, w.report.attack);
    assert(third[i] == second[i]);
    assert(with_row(third, w.stock, w.report.ammo)[i] == third[i]);
    i
}

/// Healing at full health does nothing, whatever else the frame brings:
/// a ship that the passes after the spawns find inside the canvas with its
/// hit points at their maximum, touching nothing that hurts, has its hit
/// points at their maximum after the frame.
pub proof fn lemma_full_health_after_frame(
    before: SceneStage,
    after: SceneStage,
    output: FrameOutput,
    input: FrameInput,
    w: FrameWitness,
    i: int,
)
    requires
        before.wf(),
        is_frame(before, after, output, input, w),
        crate::commands::all_harmless(before.commands@),
        0 <= i < joined(w.early, w.stock, w.report).len(),
        joined(w.early, w.stock, w.report)[i].id == before.player,
        after.player_alive(),
        ({
            let ship = joined(w.early, w.stock, w.report)[i].c;
            &&& crate::pilot::is_player_row(ship)
            &&& 0 <= ship.transform->0.pos.x < input.canvas_width
            &&& 0 <= ship.transform->0.pos.y < input.canvas_height
            &&& crate::player::none_hurts(
                ship.collider->0.collisions@,
                crate::census::facts_of(joined(w.early, w.stock, w.report)),
            )
            &&& ship.player->0.hp == ship.player->0.hp_max
            &&& ship.player->0.hp_max >= 0
            &&& ship.player->0.hp_gain >= 0
        }),
    ensures
        after.store@[after.player].player is Some,
        after.store@[after.player].player->0.hp == joined(w.early, w.stock, w.report)[i].c.player->0.hp_max,
{
    let rows = joined(w.early, w.stock, w.report);
    let ctx = StageCtx {
        deltatime: before.slowmotion.slowed(input.deltatime),
        canvas_width: input.canvas_width,
        canvas_height: input.canvas_height,
        player: before.player,
    };
    lemma_ship_after_frame(before, after, output, input, w, i);
    crate::pilot::lemma_full_health_stays_full(
        rows[i].c.player->0,
        rows[i].c.transform->0,
        rows[i].c.collider->0.collisions@,
        crate::census::facts_of(rows),
        input.keys,
        ctx,
    );
}

/// A shot takes its ammunition: a ship that the passes after the spawns
/// find with its reload trigger about to fire, picking nothing up, has
/// what the pattern consumes less after the frame, as long as some is
/// left.
pub proof fn lemma_shot_after_frame(
    before: SceneStage,
    after: SceneStage,
    output: FrameOutput,
    input: FrameInput,
    w: FrameWitness,
    i: int,
)
    requires
        before.wf(),
        is_frame(before, after, output, input, w),
        crate::commands::all_harmless(before.commands@),
        0 <= i < joined(w.early, w.stock, w.report).len(),
        joined(w.early, w.stock, w.report)[i].id == before.player,
        after.player_alive(),
        ({
            let ship = joined(w.early, w.stock, w.report)[i].c;
            let p = ship.player->0;
            &&& crate::pilot::is_player_row(ship)
            &&& crate::player::none_collected(
                ship.collider->0.collisions@,
                crate::census::facts_of(joined(w.early, w.stock, w.report)),
            )
            &&& p.reload_timer.fires(before.slowmotion.slowed(input.deltatime) as int)
            &&& p.attack.ammo_consumption_on_shot >= 0
            &&& 0 < p.ammo - p.attack.ammo_consumption_on_shot <= p.ammo_max
        }),
    ensures
        after.store@[after.player].player is Some,
        after.store@[after.player].player->0.ammo == joined(w.early, w.stock, w.report)[i].c.player->0.ammo - joined(
            w.early,
            w.stock,
            w.report,
        )[i].c.player->0.attack.ammo_consumption_on_shot,
{
    let rows = joined(w.early, w.stock, w.report);
    let ctx = StageCtx {
        deltatime: before.slowmotion.slowed(input.deltatime),
        canvas_width: input.canvas_width,
        canvas_height: input.canvas_height,
        player: before.player,
    };
    lemma_ship_after_frame(before, after, output, input, w, i);
    crate::pilot::lemma_shot_takes_ammo(
        rows[i].c.player->0,
        rows[i].c.transform->0,
        rows[i].c.collider->0.collisions@,
        crate::census::facts_of(rows),
        input.keys,
        ctx,
    );
}

/// What the director has spawned is no ship.
pub proof fn lemma_stock_keeps_ships(
    before: Map<u64, Components>,
    stock: Map<u64, Components>,
    issued: Set<u64>,
    report: SpawnReport,
    input: FrameInput,
    player: EntityId,
)
    requires
        stocked(before, stock, issued, report, input, player),
        ships_within(before, player),
    ensures
        ships_within(stock, player),
{
    reveal(stocked);
    reveal(Archetypes::is_enemy_rock);
    reveal(Archetypes::is_enemy_shooter);
    reveal(Archetypes::is_hp_collectible);
    reveal(Archetypes::is_core_collectible);
    reveal(Archetypes::is_attack_collectible);
    reveal(Archetypes::is_ammo_collectible);
    let (with_enemy, with_resource, with_attack) = choose|
        with_enemy: Map<u64, Components>,
        with_resource: Map<u64, Components>,
        with_attack: Map<u64, Components>,
    |
        {
            &&& #[trigger] one_spawned(before, with_enemy, issued, report.enemy)
            &&& #[trigger] one_spawned(with_enemy, with_resource, issued, report.resource)
            &&& #[trigger] one_spawned(with_resource, with_attack, issued, report.attack)
            &&& one_spawned(with_attack, stock, issued, report.ammo)
            &&& report.enemy is Some ==> is_enemy_of(
                with_enemy[report.enemy->0],
                report.decided.0->0,
                input.canvas_width,
                input.canvas_height,
            )
            &&& report.resource is Some ==> is_resource_of(
                with_resource[report.resource->0],
                report.decided.1->0,
                input.canvas_width,
                input.canvas_height,
            )
            &&& report.attack is Some ==> is_attack_of(
                with_attack[report.attack->0],
                report.decided.2->0,
                input.canvas_width,
                input.canvas_height,
            )
            &&& report.ammo is Some ==> is_ammo_for(stock[report.ammo->0], player, input.canvas_width, input.canvas_height)
        };
    assert(ships_within(with_enemy, player)) by {
        if report.enemy is Some {
            let c = with_enemy[report.enemy->0];
            assert(c.plain_part().player == c.player);
        }
    }
    assert(ships_within(with_resource, player)) by {
        if report.resource is Some {
            let c = with_resource[report.resource->0];
            assert(c.plain_part().player == c.player);
        }
    }
    assert(ships_within(with_attack, player)) by {
        if report.attack is Some {
            let c = with_attack[report.attack->0];
            assert(c.plain_part().player == c.player);
        }
    }
    if report.ammo is Some {
        let c = stock[report.ammo->0];
        assert(c.plain_part().player == c.player);
    }
}

/// Among the rows that the passes after the spawns work on, the ship of
/// the player is the only one.
pub proof fn lemma_joined_only_ship(
    before: SceneStage,
    after: SceneStage,
    output: FrameOutput,
    input: FrameInput,
    w: FrameWitness,
)
    requires
        before.wf(),
        is_frame(before, after, output, input, w),
        before.ships_ok(),
    ensures
        crate::pilot::only_ship(joined(w.early, w.stock, w.report), before.player),
        rows_within(joined(w.early, w.stock, w.report), w.stock.dom()),
{
    let ctx = StageCtx {
        deltatime: before.slowmotion.slowed(input.deltatime),
        canvas_width: input.canvas_width,
        canvas_height: input.canvas_height,
        player: before.player,
    };
    let ship = before.player;
    crate::frame::lemma_early_keeps_ids(w.rows, before.commands@, w.early, w.queue_early, ctx);
    lemma_joined_rows_within(
        w.rows,
        w.early,
        before.store@,
        w.stock,
        before.store.issued(),
        w.report,
        input,
        before.player,
    );
    lemma_stock_keeps_ships(before.store@, w.stock, before.store.issued(), w.report, input, before.player);
    lemma_snapshot_keeps_ships(before.store@, w.rows, ship);
    assert(crate::pilot::only_ship(w.early, ship)) by {
        assert forall|k: int| 0 <= k < w.early.len() && (#[trigger] w.early[k]).c.player is Some implies w.early[k].id
            == ship by {
            assert(w.early[k].id == w.rows[k].id && w.early[k].c.player == w.rows[k].c.player);
        }
    }
    let first = with_row(w.early, w.stock, w.report.enemy);
    assert(crate::pilot::only_ship(first, ship)) by {
        assert forall|k: int| 0 <= k < first.len() && (#[trigger] first[k]).c.player is Some implies first[k].id
            == ship by {
            if k < w.early.len() {
                assert(first[k] == w.early[k]);
            }
        }
    }
    let second = with_row(first, w.stock, w.report.resource);
    assert(crate::pilot::only_ship(second, ship)) by {
        assert forall|k: int| 0 <= k < second.len() && (#[trigger] second[k]).c.player is Some implies second[k].id
            == ship by {
            if k < first.len() {
                assert(second[k] == first[k]);
            }
        }
    }
    let third = with_row(second, w.stock, w.report.attack);
    assert(crate::pilot::only_ship(third, ship)) by {
        assert forall|k: int| 0 <= k < third.len() && (#[trigger] third[k]).c.player is Some implies third[k].id
            == ship by {
            if k < second.len() {
                assert(third[k] == second[k]);
            }
        }
    }
    let rows = with_row(third, w.stock, w.report.ammo);
    assert forall|k: int| 0 <= k < rows.len() && (#[trigger] rows[k]).c.player is Some implies rows[k].id == ship by {
        if k < third.len() {
            assert(rows[k] == third[k]);
        }
    }
}

/// A frame that finds the ship of the player outside the canvas answers
/// as to a fatal hit: time slows to 15 percent of its pace and eases back
/// over a second, and the screen shakes.
pub proof fn lemma_ship_outside_slows_time(
    before: SceneStage,
    after: SceneStage,
    output: FrameOutput,
    input: FrameInput,
    w: FrameWitness,
    i: int,
)
    requires
        before.wf(),
        before.ships_ok(),
        is_frame(before, after, output, input, w),
        0 <= i < joined(w.early, w.stock, w.report).len(),
        joined(w.early, w.stock, w.report)[i].id == before.player,
        ({
            let ship = joined(w.early, w.stock, w.report)[i].c;
            &&& crate::pilot::is_player_row(ship)
            &&& !(0 <= ship.transform->0.pos.x < input.canvas_width && 0 <= ship.transform->0.pos.y
                < input.canvas_height)
            &&& crate::player::none_heals(
                ship.collider->0.collisions@,
                crate::census::facts_of(joined(w.early, w.stock, w.report)),
            )
            &&& ship.player->0.pools_in_bounds()
            &&& ship.player->0.hp_max > 0
        }),
    ensures
        after.slowmotion == SlowmotionModulator::started_spec(1_000_000, 150_000),
        output.shake == Some(ScreenShake { amplitude: 6_000_000, duration: 200_000, frequency: 80_000_000 }),
{
    let rows = joined(w.early, w.stock, w.report);
    let ctx = StageCtx {
        deltatime: before.slowmotion.slowed(input.deltatime),
        canvas_width: input.canvas_width,
        canvas_height: input.canvas_height,
        player: before.player,
    };
    lemma_joined_only_ship(before, after, output, input, w);
    assert forall|j: int| 0 <= j < rows.len() && j != i implies (#[trigger] rows[j]).c.player is None by {
        if rows[j].c.player is Some {
            assert(rows[j].id == before.player);
            if j < i {
                assert(rows[j].id != rows[i].id);
            } else {
                assert(rows[i].id != rows[j].id);
            }
        }
    }
    crate::frame::lemma_late_answers_one_ship(
        rows,
        w.queue_early,
        w.frame,
        w.queue,
        w.outcome,
        input.keys,
        ctx,
        input.font,
        i,
    );
    crate::pilot::lemma_outside_is_fatal(
        rows[i].c.player->0,
        rows[i].c.transform->0,
        rows[i].c.collider->0.collisions@,
        crate::census::facts_of(rows),
        input.keys,
        ctx,
    );
}

/// What a frame queues to be created is in the store after the frame:
/// for every spawn command that the passes queued, a new entity holds the
/// record of the command.
pub proof fn lemma_queued_spawn_lands(
    before: SceneStage,
    after: SceneStage,
    output: FrameOutput,
    input: FrameInput,
    w: FrameWitness,
    command: Command,
) -> (id: EntityId)
    requires
        before.wf(),
        before.commands@.len() == 0,
        is_frame(before, after, output, input, w),
        w.queue.contains(command),
        command is Spawn,
    ensures
        after.store@.dom().contains(id),
        !before.store@.dom().contains(id),
        after.store@[id] == command->Spawn_0,
{
    let rows = joined(w.early, w.stock, w.report);
    let ctx = StageCtx {
        deltatime: before.slowmotion.slowed(input.deltatime),
        canvas_width: input.canvas_width,
        canvas_height: input.canvas_height,
        player: before.player,
    };
    let ids = w.stock.dom();
    crate::frame::lemma_early_keeps_ids(w.rows, before.commands@, w.early, w.queue_early, ctx);
    lemma_joined_rows_within(
        w.rows,
        w.early,
        before.store@,
        w.stock,
        before.store.issued(),
        w.report,
        input,
        before.player,
    );
    assert forall|i: int| 0 <= i < w.rows.len() implies ids.contains(#[trigger] w.rows[i].id) by {
        assert(before.store@.dom().contains(w.rows[i].id));
    }
    crate::frame::lemma_early_is_harmless(Set::full(), w.rows, before.commands@, w.early, w.queue_early, ctx);
    crate::frame::lemma_early_within(w.rows, before.commands@, w.early, w.queue_early, ctx, ids);
    crate::frame::lemma_late_is_harmless(
        Set::full(),
        rows,
        w.queue_early,
        w.frame,
        w.queue,
        w.outcome,
        input.keys,
        ctx,
        input.font,
    );
    crate::frame::lemma_late_within(rows, w.queue_early, w.frame, w.queue, w.outcome, input.keys, ctx, input.font, ids);
    let kept = written(w.stock, w.frame);
    crate::store::lemma_written_dom(w.stock, w.frame);
    let at = choose|at: int| 0 <= at < w.queue.len() && w.queue[at] == command;
    crate::commands::lemma_spawned_lands(kept, w.queue, w.spawned, at);
    w.spawned[spawn_count(w.queue.take(at)) as int]
}

/// A frame that finds the ship of the player outside the canvas leaves a
/// flash in the store: a new entity that covers the canvas for four
/// frames.
pub proof fn lemma_ship_outside_leaves_flash(
    before: SceneStage,
    after: SceneStage,
    output: FrameOutput,
    input: FrameInput,
    w: FrameWitness,
    i: int,
) -> (id: EntityId)
    requires
        before.wf(),
        before.commands@.len() == 0,
        is_frame(before, after, output, input, w),
        0 <= i < joined(w.early, w.stock, w.report).len(),
        ({
            let ship = joined(w.early, w.stock, w.report)[i].c;
            &&& crate::pilot::is_player_row(ship)
            &&& !(0 <= ship.transform->0.pos.x < input.canvas_width && 0 <= ship.transform->0.pos.y
                < input.canvas_height)
            &&& crate::player::none_heals(
                ship.collider->0.collisions@,
                crate::census::facts_of(joined(w.early, w.stock, w.report)),
            )
            &&& ship.player->0.pools_in_bounds()
            &&& ship.player->0.hp_max > 0
        }),
    ensures
        after.store@.dom().contains(id),
        !before.store@.dom().contains(id),
        Archetypes::is_screenflash(after.store@[id], input.canvas_width, input.canvas_height, 4),
{
    let rows = joined(w.early, w.stock, w.report);
    let ctx = StageCtx {
        deltatime: before.slowmotion.slowed(input.deltatime),
        canvas_width: input.canvas_width,
        canvas_height: input.canvas_height,
        player: before.player,
    };
    let facts = crate::census::facts_of(rows);
    let part = crate::frame::lemma_late_queues_ship_part(
        rows,
        w.queue_early,
        w.frame,
        w.queue,
        w.outcome,
        input.keys,
        ctx,
        input.font,
        i,
    );
    crate::pilot::lemma_outside_is_fatal(
        rows[i].c.player->0,
        rows[i].c.transform->0,
        rows[i].c.collider->0.collisions@,
        facts,
        input.keys,
        ctx,
    );
    let flash = crate::pilot::lemma_fatal_queues_flash(
        part,
        rows[i].id,
        rows[i].c.player->0,
        rows[i].c.transform->0,
        rows[i].c.collider->0.collisions@,
        facts,
        input.keys,
        ctx,
    );
    lemma_queued_spawn_lands(before, after, output, input, w, flash)
}

/// The shots of a ship are in the store after the frame in which it
/// fires: for every shot of its pattern, if the pattern leaves nothing to
/// chance, a new entity is the projectile of that shot, which starts where
/// the pattern puts it, flies where the pattern points it, and has the
/// speed, length and damage of a shot and the color of the pattern.
pub proof fn lemma_shot_lands(
    before: SceneStage,
    after: SceneStage,
    output: FrameOutput,
    input: FrameInput,
    w: FrameWitness,
    i: int,
    shots: Seq<crate::shooting::Shot>,
    k: int,
) -> (id: EntityId)
    requires
        before.wf(),
        before.commands@.len() == 0,
        is_frame(before, after, output, input, w),
        0 <= i < joined(w.early, w.stock, w.report).len(),
        0 <= k < shots.len(),
        ({
            let ship = joined(w.early, w.stock, w.report)[i].c;
            let p = ship.player->0;
            let t = ship.transform->0;
            &&& crate::pilot::is_player_row(ship)
            &&& crate::player::none_collected(
                ship.collider->0.collisions@,
                crate::census::facts_of(joined(w.early, w.stock, w.report)),
            )
            &&& p.reload_timer.fires(before.slowmotion.slowed(input.deltatime) as int)
            &&& forall|offset: i64, color: crate::color::Color|
                #[trigger] crate::shooting::shot_plan(
                    p.attack,
                    crate::shooting::muzzle_spec(p.ship_type, p.size, t.pos, Vec2::from_angle_spec(t.dir_angle)),
                    t.pos,
                    t.dir_angle,
                    offset,
                    color,
                ) == shots
        }),
    ensures
        after.store@.dom().contains(id),
        !before.store@.dom().contains(id),
        Archetypes::is_projectile(
            after.store@[id],
            shots[k].pos,
            shots[k].dir_angle,
            crate::shooting::SHOT_SPEED,
            crate::shooting::SHOT_LENGTH,
            shots[k].color,
            crate::shooting::SHOT_DAMAGE,
        ),
{
    let rows = joined(w.early, w.stock, w.report);
    let ctx = StageCtx {
        deltatime: before.slowmotion.slowed(input.deltatime),
        canvas_width: input.canvas_width,
        canvas_height: input.canvas_height,
        player: before.player,
    };
    let facts = crate::census::facts_of(rows);
    let p = rows[i].c.player->0;
    let t = rows[i].c.transform->0;
    let collisions = rows[i].c.collider->0.collisions@;
    let part = crate::frame::lemma_late_queues_ship_part(
        rows,
        w.queue_early,
        w.frame,
        w.queue,
        w.outcome,
        input.keys,
        ctx,
        input.font,
        i,
    );
    crate::pilot::lemma_shot_takes_ammo(p, t, collisions, facts, input.keys, ctx);
    let at_fire = crate::pilot::player_at_fire(p, collisions, facts, input.keys, ctx.deltatime);
    assert(at_fire.ship_type == p.ship_type && at_fire.size == p.size) by {
        crate::player::lemma_nothing_picked(crate::pilot::clocked(p, ctx.deltatime), collisions, facts);
    }
    let shot = crate::pilot::lemma_firing_queues_shot(
        part,
        rows[i].id,
        p,
        t,
        collisions,
        facts,
        input.keys,
        ctx,
        shots,
        k,
    );
    lemma_queued_spawn_lands(before, after, output, input, w, shot)
}

/// While the slow motion that answers a fatal hit is under way, less time
/// passes in the game than for real.
pub proof fn lemma_fatal_slow_motion_is_slower(dt: i64)
    requires
        0 < dt < 1_000_000,
    ensures
        0 <= SlowmotionModulator::started_spec(1_000_000, 150_000).slowed(dt) < dt,
{
    let slow = SlowmotionModulator::started_spec(1_000_000, 150_000);
    let clock = slow.advanced(dt).timer;
    assert(clock.time_cur == dt && clock.time_end == 1_000_000);
    assert((dt * 1_000_000) / 1_000_000 == dt) by (nonlinear_arith);
    assert(clock.ratio() == dt);
    let pace = slerp(150_000, UNIT, dt);
    let gain = (850_000 * dt) / 1_000_000;
    assert(0 <= gain < 850_000) by (nonlinear_arith)
        requires
            gain == (850_000 * dt) / 1_000_000,
            0 < dt < 1_000_000,
    ;
    assert(pace == 150_000 + gain);
    let product = (pace * dt) / 1_000_000;
    assert(0 <= product < dt) by (nonlinear_arith)
        requires
            product == (pace * dt) / 1_000_000,
            0 < pace < 1_000_000,
            0 < dt,
    ;
}

/// A health pickup heals by its gain, and no further than the maximum: a
/// ship that the passes after the spawns find inside the canvas, touching
/// one health pickup and nothing else, has after the frame the hit points
/// that it had, raised by its gain and clamped to its maximum.
pub proof fn lemma_health_pickup_after_frame(
    before: SceneStage,
    after: SceneStage,
    output: FrameOutput,
    input: FrameInput,
    w: FrameWitness,
    i: int,
    pickup: EntityId,
)
    requires
        before.wf(),
        is_frame(before, after, output, input, w),
        crate::commands::all_harmless(before.commands@),
        0 <= i < joined(w.early, w.stock, w.report).len(),
        joined(w.early, w.stock, w.report)[i].id == before.player,
        after.player_alive(),
        ({
            let ship = joined(w.early, w.stock, w.report)[i].c;
            let facts = crate::census::facts_of(joined(w.early, w.stock, w.report));
            &&& crate::pilot::is_player_row(ship)
            &&& 0 <= ship.transform->0.pos.x < input.canvas_width
            &&& 0 <= ship.transform->0.pos.y < input.canvas_height
            &&& ship.collider->0.collisions@ == seq![pickup]
            &&& crate::player::collectible_at(facts, pickup) == Some(crate::components::CollectibleType::Hp)
            &&& crate::player::damage_of(facts, pickup) == 0
        }),
    ensures
        after.store@[after.player].player is Some,
        after.store@[after.player].player->0.hp == crate::fixed::sclamp(
            sadd(
                joined(w.early, w.stock, w.report)[i].c.player->0.hp,
                joined(w.early, w.stock, w.report)[i].c.player->0.hp_gain,
            ),
            0,
            joined(w.early, w.stock, w.report)[i].c.player->0.hp_max,
        ),
{
    let rows = joined(w.early, w.stock, w.report);
    let ctx = StageCtx {
        deltatime: before.slowmotion.slowed(input.deltatime),
        canvas_width: input.canvas_width,
        canvas_height: input.canvas_height,
        player: before.player,
    };
    lemma_ship_after_frame(before, after, output, input, w, i);
    crate::pilot::lemma_health_pickup_heals(
        rows[i].c.player->0,
        rows[i].c.transform->0,
        pickup,
        crate::census::facts_of(rows),
        input.keys,
        ctx,
    );
}

/// Nothing flies but the shots of the ship: after a frame that began
/// without a projectile, in which the ship of the player fires a pattern
/// that leaves nothing to chance and no enemy fires, every entity that
/// carries a projectile is one of the shots of that pattern.
pub proof fn lemma_only_shots_fly(
    before: SceneStage,
    after: SceneStage,
    output: FrameOutput,
    input: FrameInput,
    w: FrameWitness,
    i: int,
    shots: Seq<crate::shooting::Shot>,
    id: EntityId,
)
    requires
        before.wf(),
        before.ships_ok(),
        before.commands@.len() == 0,
        is_frame(before, after, output, input, w),
        forall|other: u64| w.stock.dom().contains(other) ==> (#[trigger] w.stock[other]).projectile is None,
        crate::enemy::no_enemy_fires(joined(w.early, w.stock, w.report), before.slowmotion.slowed(input.deltatime)),
        0 <= i < joined(w.early, w.stock, w.report).len(),
        joined(w.early, w.stock, w.report)[i].id == before.player,
        ({
            let ship = joined(w.early, w.stock, w.report)[i].c;
            let p = ship.player->0;
            let t = ship.transform->0;
            &&& crate::pilot::is_player_row(ship)
            &&& crate::player::none_collected(
                ship.collider->0.collisions@,
                crate::census::facts_of(joined(w.early, w.stock, w.report)),
            )
            &&& forall|offset: i64, color: crate::color::Color|
                #[trigger] crate::shooting::shot_plan(
                    p.attack,
                    crate::shooting::muzzle_spec(p.ship_type, p.size, t.pos, Vec2::from_angle_spec(t.dir_angle)),
                    t.pos,
                    t.dir_angle,
                    offset,
                    color,
                ) == shots
        }),
        after.store@.dom().contains(id),
        after.store@[id].projectile is Some,
    ensures
        crate::shooting::is_shot_of(after.store@[id], shots),
{
    let rows = joined(w.early, w.stock, w.report);
    let ctx = StageCtx {
        deltatime: before.slowmotion.slowed(input.deltatime),
        canvas_width: input.canvas_width,
        canvas_height: input.canvas_height,
        player: before.player,
    };
    let facts = crate::census::facts_of(rows);
    let flying = crate::shooting::shot_records(shots);
    let p = rows[i].c.player->0;
    let t = rows[i].c.transform->0;
    let collisions = rows[i].c.collider->0.collisions@;
    lemma_joined_only_ship(before, after, output, input, w);
    crate::frame::lemma_early_keeps_ids(w.rows, before.commands@, w.early, w.queue_early, ctx);
    lemma_joined_rows_within(
        w.rows,
        w.early,
        before.store@,
        w.stock,
        before.store.issued(),
        w.report,
        input,
        before.player,
    );
    crate::frame::lemma_early_is_harmless(flying, w.rows, before.commands@, w.early, w.queue_early, ctx);
    // The ship is the only one, and its shots are those of the pattern.
    crate::pilot::lemma_shot_takes_ammo(p, t, collisions, facts, input.keys, ctx);
    let at_fire = crate::pilot::player_at_fire(p, collisions, facts, input.keys, ctx.deltatime);
    assert(at_fire.ship_type == p.ship_type && at_fire.size == p.size) by {
        crate::player::lemma_nothing_picked(crate::pilot::clocked(p, ctx.deltatime), collisions, facts);
    }
    assert(crate::pilot::ships_shots_fly(flying, rows, facts, input.keys, ctx)) by {
        assert forall|j: int| 0 <= j < rows.len() && crate::pilot::is_player_row((#[trigger] rows[j]).c) implies crate::pilot::ship_shots_fly(
            flying,
            rows[j].c.player->0,
            rows[j].c.transform->0,
            rows[j].c.collider->0.collisions@,
            facts,
            input.keys,
            ctx,
        ) by {
            assert(rows[j].id == before.player);
            if j < i {
                assert(rows[j].id != rows[i].id);
            } else if i < j {
                assert(rows[i].id != rows[j].id);
            }
            assert(j == i);
            crate::shooting::lemma_fixed_plan_flies(at_fire, t.pos, t.dir_angle, shots);
        }
    }
    crate::frame::lemma_late_is_harmless(
        flying,
        rows,
        w.queue_early,
        w.frame,
        w.queue,
        w.outcome,
        input.keys,
        ctx,
        input.font,
    );
    // Nothing that the passes left in the store carries a projectile.
    let kept = written(w.stock, w.frame);
    crate::store::lemma_written_dom(w.stock, w.frame);
    crate::frame::lemma_late_updates_ships(rows, w.queue_early, w.frame, w.queue, w.outcome, input.keys, ctx, input.font);
    assert forall|j: int| 0 <= j < rows.len() implies (#[trigger] rows[j]).c.projectile is None by {
        assert(w.stock.dom().contains(rows[j].id));
        if j < w.early.len() {
            let first = with_row(w.early, w.stock, w.report.enemy);
            let second = with_row(first, w.stock, w.report.resource);
            let third = with_row(second, w.stock, w.report.attack);
            assert(first[j] == w.early[j]);
            assert(second[j] == first[j]);
            assert(third[j] == second[j]);
            assert(rows[j] == third[j]);
            assert(w.early[j].id == w.rows[j].id && w.early[j].c.projectile == w.rows[j].c.projectile);
            assert(before.store@.dom().contains(w.rows[j].id));
            assert(w.rows[j].c == before.store@[w.rows[j].id]);
            assert(w.stock[w.rows[j].id] == before.store@[w.rows[j].id]);
        } else {
            lemma_joined_row_is_stock(w.early, w.stock, w.report, j);
        }
    }
    assert(crate::commands::all_harmless(w.queue)) by {
        assert forall|k: int| 0 <= k < w.queue.len() implies crate::commands::harmless(#[trigger] w.queue[k]) by {
            assert(crate::commands::harmless_but(flying, w.queue[k]));
        }
    }
    let at = crate::commands::lemma_record_origin(kept, w.queue, w.spawned, id);
    if at < 0 {
        let from = crate::store::lemma_written_origin(w.stock, w.frame, id);
        if from >= 0 {
            assert(w.frame[from].c.projectile == rows[from].c.projectile);
        }
    } else {
        assert(crate::commands::harmless_but(flying, w.queue[at]));
    }
}

/// A row that joined the rows after the spawns holds the record of its
/// entity as the spawns left it.
pub proof fn lemma_joined_row_is_stock(early: Seq<Row>, stock: Map<u64, Components>, report: SpawnReport, j: int)
    requires
        early.len() <= j < joined(early, stock, report).len(),
    ensures
        stock.dom().contains(joined(early, stock, report)[j].id),
        joined(early, stock, report)[j].c == stock[joined(early, stock, report)[j].id],
{
    let first = with_row(early, stock, report.enemy);
    let second = with_row(first, stock, report.resource);
    let third = with_row(second, stock, report.attack);
    let rows = with_row(third, stock, report.ammo);
    if j < first.len() {
        assert(second[j] == first[j]);
        assert(third[j] == second[j]);
        assert(rows[j] == third[j]);
    } else if j < second.len() {
        assert(third[j] == second[j]);
        assert(rows[j] == third[j]);
    } else if j < third.len() {
        assert(rows[j] == third[j]);
    }
}

/// Ammunition picked up at full ammunition changes nothing: a ship that
/// the passes after the spawns find with its ammunition at the maximum,
/// and that does not fire in this frame, has its ammunition at the maximum
/// after the frame, whatever it picks up.
pub proof fn lemma_full_ammo_after_frame(
    before: SceneStage,
    after: SceneStage,
    output: FrameOutput,
    input: FrameInput,
    w: FrameWitness,
    i: int,
)
    requires
        before.wf(),
        is_frame(before, after, output, input, w),
        crate::commands::all_harmless(before.commands@),
        0 <= i < joined(w.early, w.stock, w.report).len(),
        joined(w.early, w.stock, w.report)[i].id == before.player,
        after.player_alive(),
        ({
            let ship = joined(w.early, w.stock, w.report)[i].c;
            let p = ship.player->0;
            &&& crate::pilot::is_player_row(ship)
            &&& p.ammo == p.ammo_max
            &&& p.ammo_max >= 0
            &&& p.ammo_gain >= 0
            &&& !crate::pilot::player_at_fire(
                p,
                ship.collider->0.collisions@,
                crate::census::facts_of(joined(w.early, w.stock, w.report)),
                input.keys,
                before.slowmotion.slowed(input.deltatime),
            ).reload_timer.fires(before.slowmotion.slowed(input.deltatime) as int)
        }),
    ensures
        after.store@[after.player].player is Some,
        after.store@[after.player].player->0.ammo == joined(w.early, w.stock, w.report)[i].c.player->0.ammo_max,
{
    let rows = joined(w.early, w.stock, w.report);
    let ctx = StageCtx {
        deltatime: before.slowmotion.slowed(input.deltatime),
        canvas_width: input.canvas_width,
        canvas_height: input.canvas_height,
        player: before.player,
    };
    lemma_ship_after_frame(before, after, output, input, w, i);
    crate::pilot::lemma_full_ammo_stays_full(
        rows[i].c.player->0,
        rows[i].c.transform->0,
        rows[i].c.collider->0.collisions@,
        crate::census::facts_of(rows),
        input.keys,
        ctx,
    );
}

} // verus!
