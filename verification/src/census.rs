//! A read-only digest of all entities, taken before a pass, so that the
//! pass can look at other entities while it rewrites its own.
use vstd::prelude::*;
use crate::components::{Collectible, EntityId, Projectile, Transform};
use crate::store::Row;

verus! {

/// What passes read of other entities.
#[derive(Clone, Copy, Debug, PartialEq, Eq, Structural)]
pub struct Fact {
    pub id: EntityId,
    pub transform: Option<Transform>,
    pub projectile: Option<Projectile>,
    pub collectible: Option<Collectible>,
    pub is_enemy: bool,
    pub is_player: bool,
}

pub open spec fn fact_of(row: Row) -> Fact {
    Fact {
        id: row.id,
        transform: row.c.transform,
        projectile: row.c.projectile,
        collectible: row.c.collectible,
        is_enemy: row.c.enemy is Some,
        is_player: row.c.player is Some,
    }
}

pub open spec fn facts_of(rows: Seq<Row>) -> Seq<Fact> {
    Seq::new(rows.len(), |i: int| fact_of(rows[i]))
}

/// Index of the first fact about entity `id` at or after `from`; the
/// length of the digest if there is none.
pub open spec fn first_index(facts: Seq<Fact>, id: EntityId, from: int) -> int
    decreases facts.len() - from,
{
    if from < 0 || from >= facts.len() {
        facts.len() as int
    } else if facts[from].id == id {
        from
    } else {
        first_index(facts, id, from + 1)
    }
}

/// What the digest knows of entity `id`; nothing if the entity is not in
/// it.
pub open spec fn fact_for(facts: Seq<Fact>, id: EntityId) -> Option<Fact> {
    let k = first_index(facts, id, 0);
    if 0 <= k < facts.len() {
        Some(facts[k])
    } else {
        None
    }
}

/// The pose of entity `id`, if it exists and has one.
pub open spec fn pose_for(facts: Seq<Fact>, id: EntityId) -> Option<Transform> {
    match fact_for(facts, id) {
        Some(fact) => fact.transform,
        None => None,
    }
}

pub fn take_census(rows: &Vec<Row>) -> (facts: Vec<Fact>)
    ensures
        facts@ == facts_of(rows@),
{
    let mut facts: Vec<Fact> = Vec::new();
    let mut i: usize = 0;
    while i < rows.len()
        invariant
            i <= rows@.len(),
            facts@.len() == i,
            forall|j: int| 0 <= j < i ==> facts@[j] == fact_of(rows@[j]),
        decreases rows@.len() - i,
    {
        facts.push(
            Fact {
                id: rows[i].id,
                transform: rows[i].c.transform,
                projectile: rows[i].c.projectile,
                collectible: rows[i].c.collectible,
                is_enemy: rows[i].c.enemy.is_some(),
                is_player: rows[i].c.player.is_some(),
            },
        );
        i = i + 1;
    }
    assert(facts@ =~= facts_of(rows@));
    facts
}

pub fn find_fact(facts: &Vec<Fact>, id: EntityId) -> (found: Option<Fact>)
    ensures
        found == fact_for(facts@, id),
{
    let mut i: usize = 0;
    while i < facts.len()
        invariant
            i <= facts@.len(),
            first_index(facts@, id, 0) == first_index(facts@, id, i as int),
        decreases facts@.len() - i,
    {
        if facts[i].id == id {
            return Some(facts[i]);
        }
        i = i + 1;
    }
    None
}

pub fn find_pose(facts: &Vec<Fact>, id: EntityId) -> (found: Option<Transform>)
    ensures
        found == pose_for(facts@, id),
{
    match find_fact(facts, id) {
        Some(fact) => fact.transform,
        None => None,
    }
}

} // verus!
