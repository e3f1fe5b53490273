//! The entity store: a `hecs::World` in which every entity carries one
//! `Components` record.
use vstd::prelude::*;
use crate::components::{Components, EntityId};

verus! {

#[verifier::external_type_specification]
#[verifier::external_body]
pub struct ExWorld(hecs::World);

/// The record of every live entity of a world, keyed by the bits of the
/// entity's handle.
pub uninterp spec fn world_records(world: hecs::World) -> Map<u64, Components>;

/// The bits of every handle that a world has given out so far, whether the
/// entity is still alive or not.
pub uninterp spec fn world_issued(world: hecs::World) -> Set<u64>;

/// Whether a handle carries the last generation of its slot. The upper half
/// of the bits of a handle is the generation, which `hecs` raises by one
/// each time it frees the slot; a slot in its last generation cannot be
/// freed without the count running over.
pub open spec fn last_generation(id: u64) -> bool {
    (id >> 32) >= 0xffff_ffff
}

/// `hecs::World::new`: a world that holds no entity and has given out no
/// handle.
#[verifier::external_body]
fn world_new() -> (world: hecs::World)
    ensures
        world_records(world).dom() == Set::<u64>::empty(),
        world_issued(world) == Set::<u64>::empty(),
{
    hecs::World::new()
}

/// `hecs::World::spawn` with a bundle of one component, then
/// `hecs::Entity::to_bits`: the new entity carries the record, and its
/// handle differs from every handle that the world gave out before. A
/// freed slot is given out again under the next generation, and no slot
/// ever runs out of generations, because `world_despawn`, the only way to
/// free a slot of a world of this library, leaves the last one out.
#[verifier::external_body]
fn world_spawn(world: &mut hecs::World, record: Components) -> (id: u64)
    ensures
        !world_issued(*old(world)).contains(id),
        world_issued(*final(world)) == world_issued(*old(world)).insert(id),
        world_records(*final(world)) == world_records(*old(world)).insert(id, record),
{
    world.spawn((record,)).to_bits()
}

/// `hecs::World::despawn` on a live entity: the entity and its record are
/// gone, every other entity is untouched. Handles that are not alive are
/// left out: on some of them `hecs` would look past its tables. So is a
/// handle of the last generation: freeing it would run the generation of
/// its slot over.
#[verifier::external_body]
fn world_despawn(world: &mut hecs::World, id: u64)
    requires
        world_records(*old(world)).dom().contains(id),
        !last_generation(id),
    ensures
        world_issued(*final(world)) == world_issued(*old(world)),
        world_records(*final(world)) == world_records(*old(world)).remove(id),
{
    world.despawn(hecs::Entity::from_bits(id)).ok();
}

/// `hecs::World::get`: a copy of the record of a live entity. Any other
/// handle, dead or never given out, is answered with an error by `hecs`,
/// and with nothing here.
#[verifier::external_body]
fn world_get(world: &hecs::World, id: u64) -> (found: Option<Components>)
    ensures
        found == (if world_records(*world).dom().contains(id) {
            Some(world_records(*world)[id])
        } else {
            None
        }),
{
    world.get::<Components>(hecs::Entity::from_bits(id)).ok().map(|record| (*record).clone())
}

/// `hecs::World::insert_one` on a live entity: its record is dropped and
/// replaced, every other entity is untouched.
#[verifier::external_body]
fn world_set(world: &mut hecs::World, id: u64, record: Components)
    requires
        world_records(*old(world)).dom().contains(id),
    ensures
        world_issued(*final(world)) == world_issued(*old(world)),
        world_records(*final(world)) == world_records(*old(world)).insert(id, record),
{
    world.insert_one(hecs::Entity::from_bits(id), record).ok();
}

/// `hecs::World::iter`, each item turned into its bits: the handle of
/// every live entity, each once, in no particular order.
#[verifier::external_body]
fn world_ids(world: &hecs::World) -> (ids: Vec<u64>)
    ensures
        ids@.no_duplicates(),
        forall|id: u64| ids@.contains(id) <==> world_records(*world).dom().contains(id),
{
    world.iter().map(|(entity, _)| entity.to_bits()).collect()
}

/// One entity as a pass sees it: its identity and a copy of its record.
#[derive(Clone, Debug, PartialEq, Eq)]
pub struct Row {
    pub id: EntityId,
    pub c: Components,
}

/// The rows list every entity of `records` exactly once, each with its
/// record.
pub open spec fn is_snapshot(rows: Seq<Row>, records: Map<u64, Components>) -> bool {
    &&& forall|i: int, j: int| 0 <= i < j < rows.len() ==> rows[i].id != rows[j].id
    &&& forall|i: int| 0 <= i < rows.len() ==> records.dom().contains(#[trigger] rows[i].id)
    &&& forall|i: int| 0 <= i < rows.len() ==> records[rows[i].id] == (#[trigger] rows[i]).c
    &&& forall|id: u64| records.dom().contains(id) ==> exists|i: int| 0 <= i < rows.len() && #[trigger] rows[i].id == id
}

/// The rows after a pass that changes the record of each row by `step`
/// alone and leaves the identities as they are.
#[verifier::opaque]
pub open spec fn rows_mapped(before: Seq<Row>, after: Seq<Row>, step: spec_fn(Components) -> Components) -> bool {
    &&& after.len() == before.len()
    &&& forall|i: int|
        0 <= i < before.len() ==> (#[trigger] after[i]).id == before[i].id && after[i].c == step(before[i].c)
}

/// The records after the rows have been written over them, in order. A row
/// whose entity does not exist is skipped.
pub open spec fn written(records: Map<u64, Components>, rows: Seq<Row>) -> Map<u64, Components>
    decreases rows.len(),
{
    if rows.len() == 0 {
        records
    } else {
        let before = written(records, rows.drop_last());
        let row = rows.last();
        if before.dom().contains(row.id) {
            before.insert(row.id, row.c)
        } else {
            before
        }
    }
}

/// Writing rows keeps the set of entities.
pub proof fn lemma_written_dom(records: Map<u64, Components>, rows: Seq<Row>)
    ensures
        written(records, rows).dom() == records.dom(),
    decreases rows.len(),
{
    if rows.len() > 0 {
        lemma_written_dom(records, rows.drop_last());
        let before = written(records, rows.drop_last());
        let row = rows.last();
        if before.dom().contains(row.id) {
            assert(before.insert(row.id, row.c).dom() =~= before.dom());
        }
    }
}

/// Rows with distinct identities are written independently: each entity
/// that has a row ends up with that row's record, every other entity keeps
/// its own.
pub proof fn lemma_written_rows(records: Map<u64, Components>, rows: Seq<Row>)
    requires
        forall|i: int, j: int| 0 <= i < j < rows.len() ==> rows[i].id != rows[j].id,
    ensures
        written(records, rows).dom() == records.dom(),
        forall|i: int|
            0 <= i < rows.len() && records.dom().contains(#[trigger] rows[i].id) ==> written(
                records,
                rows,
            )[rows[i].id] == rows[i].c,
        forall|id: u64|
            records.dom().contains(id) && (forall|i: int| 0 <= i < rows.len() ==> #[trigger] rows[i].id != id)
                ==> written(records, rows)[id] == records[id],
    decreases rows.len(),
{
    lemma_written_dom(records, rows);
    if rows.len() > 0 {
        let head = rows.drop_last();
        lemma_written_rows(records, head);
        lemma_written_dom(records, head);
        let before = written(records, head);
        let row = rows.last();
        assert forall|i: int|
            0 <= i < rows.len() && records.dom().contains(#[trigger] rows[i].id) implies written(
            records,
            rows,
        )[rows[i].id] == rows[i].c by {
            if i < rows.len() - 1 {
                assert(head[i] == rows[i]);
                assert(rows[i].id != row.id);
            }
        }
        assert forall|id: u64|
            records.dom().contains(id) && (forall|i: int|
                0 <= i < rows.len() ==> #[trigger] rows[i].id != id) implies written(records, rows)[id]
            == records[id] by {
            assert(rows[rows.len() - 1].id != id);
            assert forall|i: int| 0 <= i < head.len() implies #[trigger] head[i].id != id by {
                assert(head[i] == rows[i]);
            }
        }
    }
}

pub struct Store {
    world: hecs::World,
    /// Entities that were destroyed in the last generation of their slot.
    /// They are kept in the world, so that the slot is never freed, and
    /// are hidden from everything the store hands out.
    retired: Vec<u64>,
}

fn is_last_generation(id: u64) -> (last: bool)
    ensures
        last == last_generation(id),
{
    (id >> 32) >= 0xffff_ffff
}

impl Store {
    /// The live entities and their records.
    pub closed spec fn view(&self) -> Map<u64, Components> {
        Map::new(
            |id: u64| world_records(self.world).dom().contains(id) && !self.retired@.contains(id),
            |id: u64| world_records(self.world)[id],
        )
    }

    /// Every identity that was ever given to an entity of this store.
    pub closed spec fn issued(&self) -> Set<u64> {
        world_issued(self.world)
    }

    /// Every entity of the world has an identity that the store gave out,
    /// and every retired entity is still in the world, in the last
    /// generation of its slot.
    pub closed spec fn wf(&self) -> bool {
        &&& world_records(self.world).dom().subset_of(world_issued(self.world))
        &&& forall|k: int|
            0 <= k < self.retired@.len() ==> world_records(self.world).dom().contains(#[trigger] self.retired@[k])
                && last_generation(self.retired@[k])
    }

    pub fn new() -> (store: Store)
        ensures
            store.wf(),
            store@.dom() == Set::<u64>::empty(),
            store.issued() == Set::<u64>::empty(),
    {
        let store: Store = Store { world: world_new(), retired: Vec::new() };
        assert(store@.dom() =~= Set::<u64>::empty());
        store
    }

    fn is_retired(&self, id: EntityId) -> (retired: bool)
        ensures
            retired == self.retired@.contains(id),
    {
        let mut k: usize = 0;
        while k < self.retired.len()
            invariant
                k <= self.retired@.len(),
                forall|j: int| 0 <= j < k ==> self.retired@[j] != id,
            decreases self.retired@.len() - k,
        {
            if self.retired[k] == id {
                return true;
            }
            k = k + 1;
        }
        false
    }

    /// Creates an entity. Its identity is one that no entity of this store
    /// ever had.
    pub fn spawn(&mut self, record: Components) -> (id: EntityId)
        requires
            old(self).wf(),
        ensures
            final(self).wf(),
            !old(self).issued().contains(id),
            !old(self)@.dom().contains(id),
            final(self).issued() == old(self).issued().insert(id),
            final(self)@ == old(self)@.insert(id, record),
            final(self).issued().contains(id),
    {
        let id: u64 = world_spawn(&mut self.world, record);
        proof {
            assert(!self.retired@.contains(id)) by {
                if self.retired@.contains(id) {
                    let k = choose|k: int| 0 <= k < self.retired@.len() && self.retired@[k] == id;
                    assert(world_records(old(self).world).dom().contains(self.retired@[k]));
                }
            }
            assert(self@ =~= old(self)@.insert(id, record));
        }
        id
    }

    /// Destroys an entity; a no-op when it does not exist. An entity in the
    /// last generation of its slot is retired: it is gone for every user of
    /// the store, and its slot is never given out again.
    pub fn despawn(&mut self, id: EntityId) -> (existed: bool)
        requires
            old(self).wf(),
        ensures
            final(self).wf(),
            existed == old(self)@.dom().contains(id),
            final(self).issued() == old(self).issued(),
            final(self)@ == old(self)@.remove(id),
    {
        if self.is_retired(id) {
            assert(self@.remove(id) =~= self@);
            return false;
        }
        match world_get(&self.world, id) {
            Some(_) => {
                if is_last_generation(id) {
                    let ghost before = self.retired@;
                    self.retired.push(id);
                    proof {
                        assert forall|x: u64| self.retired@.contains(x) <==> before.contains(x) || x == id by {
                            if before.contains(x) {
                                let k = choose|k: int| 0 <= k < before.len() && before[k] == x;
                                assert(self.retired@[k] == x);
                            }
                            if x == id {
                                assert(self.retired@[before.len() as int] == id);
                            }
                        }
                        assert(self@ =~= old(self)@.remove(id));
                    }
                } else {
                    world_despawn(&mut self.world, id);
                    proof {
                        assert(self@ =~= old(self)@.remove(id));
                    }
                }
                true
            },
            None => {
                assert(self@.remove(id) =~= self@);
                false
            },
        }
    }

    pub fn contains(&self, id: EntityId) -> (alive: bool)
        ensures
            alive == self@.dom().contains(id),
    {
        !self.is_retired(id) && world_get(&self.world, id).is_some()
    }

    /// A copy of the record of an entity, if it exists.
    pub fn get(&self, id: EntityId) -> (found: Option<Components>)
        ensures
            found == (if self@.dom().contains(id) { Some(self@[id]) } else { None }),
    {
        if self.is_retired(id) {
            None
        } else {
            world_get(&self.world, id)
        }
    }

    /// Replaces the record of an entity. On an entity that does not exist
    /// nothing happens.
    pub fn set(&mut self, id: EntityId, record: Components) -> (existed: bool)
        requires
            old(self).wf(),
        ensures
            final(self).wf(),
            existed == old(self)@.dom().contains(id),
            final(self).issued() == old(self).issued(),
            final(self)@ == (if existed { old(self)@.insert(id, record) } else { old(self)@ }),
    {
        if self.is_retired(id) {
            return false;
        }
        match world_get(&self.world, id) {
            Some(_) => {
                world_set(&mut self.world, id, record);
                proof {
                    assert(world_records(self.world).dom() =~= world_records(old(self).world).dom());
                    assert(self@ =~= old(self)@.insert(id, record));
                }
                true
            },
            None => false,
        }
    }

    /// A copy of every entity with its record.
    pub fn snapshot(&self) -> (rows: Vec<Row>)
        ensures
            is_snapshot(rows@, self@),
    {
        let ids: Vec<u64> = self.ids();
        let mut rows: Vec<Row> = Vec::new();
        let mut i: usize = 0;
        while i < ids.len()
            invariant
                i <= ids@.len(),
                rows@.len() == i,
                ids@.no_duplicates(),
                forall|id: u64| ids@.contains(id) <==> self@.dom().contains(id),
                forall|j: int| 0 <= j < i ==> (#[trigger] rows@[j]).id == ids@[j],
                forall|j: int| 0 <= j < i ==> (#[trigger] rows@[j]).c == self@[ids@[j]],
            decreases ids@.len() - i,
        {
            let id: u64 = ids[i];
            assert(ids@.contains(id));
            match self.get(id) {
                Some(c) => {
                    rows.push(Row { id, c });
                },
                None => {
                    assert(false);
                },
            }
            i = i + 1;
        }
        proof {
            assert forall|id: u64| self@.dom().contains(id) implies exists|k: int|
                0 <= k < rows@.len() && #[trigger] rows@[k].id == id by {
                assert(ids@.contains(id));
                let k = choose|k: int| 0 <= k < ids@.len() && ids@[k] == id;
                assert(rows@[k].id == id);
            }
            assert forall|k: int| 0 <= k < rows@.len() implies self@.dom().contains(
                #[trigger] rows@[k].id,
            ) by {
                assert(ids@.contains(ids@[k]));
            }
        }
        rows
    }

    /// Writes the rows over the records of their entities, in order.
    pub fn write_back(&mut self, rows: Vec<Row>)
        requires
            old(self).wf(),
        ensures
            final(self).wf(),
            final(self).issued() == old(self).issued(),
            final(self)@ == written(old(self)@, rows@),
            final(self)@.dom() == old(self)@.dom(),
            (forall|i: int, j: int| 0 <= i < j < rows@.len() ==> rows@[i].id != rows@[j].id) ==> forall|i: int|
                0 <= i < rows@.len() && old(self)@.dom().contains(#[trigger] rows@[i].id) ==> final(self)@[rows@[i].id]
                    == rows@[i].c,
    {
        proof {
            lemma_written_dom(old(self)@, rows@);
            if forall|i: int, j: int| 0 <= i < j < rows@.len() ==> rows@[i].id != rows@[j].id {
                lemma_written_rows(old(self)@, rows@);
            }
        }
        let mut rows = rows;
        let ghost all = rows@;
        let mut i: usize = 0;
        while i < rows.len()
            invariant
                i <= rows@.len(),
                rows@.len() == all.len(),
                forall|j: int| i <= j < all.len() ==> rows@[j] == all[j],
                self.wf(),
                self.issued() == old(self).issued(),
                self@ == written(old(self)@, all.take(i as int)),
            decreases rows@.len() - i,
        {
            let id: u64 = rows[i].id;
            let mut record: Components = Components::none();
            core::mem::swap(&mut rows[i].c, &mut record);
            assert(record == all[i as int].c);
            self.set(id, record);
            assert(all.take(i as int + 1).drop_last() == all.take(i as int));
            i = i + 1;
        }
        assert(all.take(all.len() as int) == all);
    }

    /// A live entity has an identity that the store gave out.
    pub proof fn lemma_alive_is_issued(&self, id: EntityId)
        requires
            self.wf(),
            self@.dom().contains(id),
        ensures
            self.issued().contains(id),
    {
    }

    /// The identities of all entities.
    pub fn ids(&self) -> (ids: Vec<EntityId>)
        ensures
            ids@.no_duplicates(),
            forall|id: u64| ids@.contains(id) <==> self@.dom().contains(id),
    {
        let all: Vec<u64> = world_ids(&self.world);
        let mut ids: Vec<u64> = Vec::new();
        let mut i: usize = 0;
        while i < all.len()
            invariant
                i <= all@.len(),
                all@.no_duplicates(),
                forall|id: u64| all@.contains(id) <==> world_records(self.world).dom().contains(id),
                ids@.no_duplicates(),
                forall|j: int|
                    0 <= j < ids@.len() ==> !self.retired@.contains(#[trigger] ids@[j]) && exists|k: int|
                        0 <= k < i && all@[k] == ids@[j],
                forall|k: int| 0 <= k < i && !self.retired@.contains(#[trigger] all@[k]) ==> ids@.contains(all@[k]),
            decreases all@.len() - i,
        {
            let id: u64 = all[i];
            if !self.is_retired(id) {
                let ghost before = ids@;
                proof {
                    assert(!before.contains(id)) by {
                        if before.contains(id) {
                            let j = choose|j: int| 0 <= j < before.len() && before[j] == id;
                            let k = choose|k: int| 0 <= k < i && all@[k] == before[j];
                            assert(all@[k] == all@[i as int]);
                        }
                    }
                }
                ids.push(id);
                proof {
                    assert forall|j: int| 0 <= j < ids@.len() implies !self.retired@.contains(#[trigger] ids@[j])
                        && exists|k: int| 0 <= k < i + 1 && all@[k] == ids@[j] by {
                        if j < before.len() {
                            assert(ids@[j] == before[j]);
                            let k = choose|k: int| 0 <= k < i && all@[k] == before[j];
                            assert(all@[k] == ids@[j]);
                        } else {
                            assert(all@[i as int] == ids@[j]);
                        }
                    }
                    assert forall|k: int| 0 <= k < i + 1 && !self.retired@.contains(#[trigger] all@[k]) implies ids@.contains(
                        all@[k],
                    ) by {
                        if k < i {
                            let j = choose|j: int| 0 <= j < before.len() && before[j] == all@[k];
                            assert(ids@[j] == all@[k]);
                        } else {
                            assert(ids@[before.len() as int] == all@[k]);
                        }
                    }
                    assert(ids@.no_duplicates()) by {
                        assert forall|a: int, b: int| 0 <= a < ids@.len() && 0 <= b < ids@.len() && a != b implies ids@[a]
                            != ids@[b] by {
                            if a < before.len() && b < before.len() {
                                assert(before[a] != before[b]);
                            } else if a < before.len() {
                                assert(before.contains(before[a]));
                            } else {
                                assert(before.contains(before[b]));
                            }
                        }
                    }
                }
            } else {
                proof {
                    assert forall|j: int| 0 <= j < ids@.len() implies !self.retired@.contains(#[trigger] ids@[j])
                        && exists|k: int| 0 <= k < i + 1 && all@[k] == ids@[j] by {
                        let k = choose|k: int| 0 <= k < i && all@[k] == ids@[j];
                        assert(all@[k] == ids@[j]);
                    }
                }
            }
            i = i + 1;
        }
        proof {
            assert forall|id: u64| ids@.contains(id) <==> self@.dom().contains(id) by {
                if ids@.contains(id) {
                    let j = choose|j: int| 0 <= j < ids@.len() && ids@[j] == id;
                    let k = choose|k: int| 0 <= k < all@.len() && all@[k] == ids@[j];
                    assert(all@.contains(id));
                }
                if self@.dom().contains(id) {
                    assert(all@.contains(id));
                    let k = choose|k: int| 0 <= k < all@.len() && all@[k] == id;
                    assert(ids@.contains(all@[k]));
                }
            }
        }
        ids
    }
}

/// Where a record comes from after rows have been written: it is the
/// record that was there, or the record of one of the rows.
pub proof fn lemma_written_origin(records: Map<u64, Components>, rows: Seq<Row>, id: u64) -> (i: int)
    requires
        records.dom().contains(id),
    ensures
        i < rows.len(),
        i < 0 ==> written(records, rows)[id] == records[id],
        i >= 0 ==> rows[i].id == id && written(records, rows)[id] == rows[i].c,
    decreases rows.len(),
{
    lemma_written_dom(records, rows);
    if rows.len() == 0 {
        -1
    } else {
        let head = rows.drop_last();
        lemma_written_dom(records, head);
        if rows.last().id == id {
            rows.len() - 1
        } else {
            let i = lemma_written_origin(records, head, id);
            if i >= 0 {
                assert(head[i] == rows[i]);
            }
            i
        }
    }
}

} // verus!
